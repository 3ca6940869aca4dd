//! YARA signatures and the compiled sets the scanner matches with.

use crate::errors::Error;
use std::sync::Arc;
use vstd::prelude::*;
use vstd::string::*;

verus! {

/// yara_x's compiled rule set; opaque here.
#[verifier::external_type_specification]
#[verifier::external_body]
pub struct ExRules(yara_x::Rules);

/// yara_x's rule compiler; opaque here.
#[verifier::external_type_specification]
#[verifier::external_body]
pub struct ExCompiler<'a>(yara_x::Compiler<'a>);

/// The identifiers of the rules a yara_x rule set holds, in the order
/// `yara_x::Rules::iter` yields them.
pub uninterp spec fn rule_identifiers(rules: yara_x::Rules) -> Seq<Seq<char>>;

/// The identifiers of the rules a yara_x compiler has compiled so far, in the
/// order they were added.
pub uninterp spec fn compiled_identifiers(compiler: yara_x::Compiler<'_>) -> Seq<Seq<char>>;

/// The source texts a yara_x compiler holds, in the order they were added
/// (`add_source` registers each source with the compiler before compiling it).
pub uninterp spec fn compiler_sources(compiler: yara_x::Compiler<'_>) -> Seq<Seq<char>>;

/// Whether adding `source` to a compiler that already accepted the sources
/// `previous` can end with `outcome`: `None` when the source is accepted,
/// `Some(e)` when it is rejected with `e`. This is a relation, not a function:
/// the outcome also rests on the files that `include` directives read.
pub uninterp spec fn source_may_compile(
    previous: Seq<Seq<char>>,
    source: Seq<char>,
    outcome: Option<yara_x::errors::CompileError>,
) -> bool;

/// Whether `rules` can be what building a compiler that accepted exactly the
/// sources `sources`, in order, gives. A relation: the rules also rest on the
/// files that `include` directives read.
pub uninterp spec fn rules_built_from(rules: yara_x::Rules, sources: Seq<Seq<char>>) -> bool;

/// Calls `yara_x::Compiler::new`: a compiler that holds no sources and no
/// rules yet.
#[verifier::external_body]
fn new_compiler<'a>() -> (c: yara_x::Compiler<'a>)
    ensures
        compiled_identifiers(c) == Seq::<Seq<char>>::empty(),
        compiler_sources(c) == Seq::<Seq<char>>::empty(),
{
    yara_x::Compiler::new()
}

/// Calls `yara_x::Compiler::add_source`: the compiler registers the source,
/// then compiles it; the outcome is one that adding this source after the
/// ones the compiler held can give. Which outcome, and which rules the source
/// adds, is not stated: that depends on the YARA text and, through `include`
/// directives, on files on disk.
#[verifier::external_body]
fn add_source(compiler: &mut yara_x::Compiler<'_>, source: &str) -> (r: Result<(), yara_x::errors::CompileError>)
    ensures
        compiler_sources(*final(compiler)) == compiler_sources(*old(compiler)).push(source@),
        source_may_compile(compiler_sources(*old(compiler)), source@, match r {
            Ok(()) => None,
            Err(e) => Some(e),
        }),
{
    match compiler.add_source(source) {
        Ok(_) => Ok(()),
        Err(e) => Err(e),
    }
}

/// Calls `yara_x::Compiler::build`, which turns the compiler into a rule set
/// holding the rules it compiled, built from the sources it holds.
#[verifier::external_body]
fn build_rules(compiler: yara_x::Compiler<'_>) -> (rules: yara_x::Rules)
    ensures
        rule_identifiers(rules) == compiled_identifiers(compiler),
        rules_built_from(rules, compiler_sources(compiler)),
{
    compiler.build()
}

/// Calls `yara_x::Rules::iter` and counts the rules it yields.
#[verifier::external_body]
fn count_rules(rules: &Arc<yara_x::Rules>) -> (n: usize)
    ensures
        n == rule_identifiers(**rules).len(),
{
    rules.iter().count()
}

/// Calls `std::sync::Arc::clone`: another pointer to the same rule set.
#[verifier::external_body]
fn share_rules(rules: &Arc<yara_x::Rules>) -> (r: Arc<yara_x::Rules>)
    ensures
        *r == **rules,
{
    Arc::clone(rules)
}

/// A YARA signature: source text holding one or more rules.
pub struct Signature(pub String);

impl Clone for Signature {
    /// A signature with the same source text.
    fn clone(&self) -> (s: Signature)
        ensures
            s@ == self@,
    {
        Signature(self.0.clone())
    }
}

impl View for Signature {
    type V = Seq<char>;

    open spec fn view(&self) -> Seq<char> {
        self.0@
    }
}

/// The source texts of a sequence of signatures, in order.
pub open spec fn sources_of(signatures: Seq<Signature>) -> Seq<Seq<char>> {
    signatures.map_values(|s: Signature| s@)
}

/// A set of YARA signatures together with the rules compiled from them.
pub struct SigSet {
    rules: Arc<yara_x::Rules>,
    signatures: Vec<Signature>,
}

impl SigSet {
    /// The identifiers of the rules compiled from the set's signatures.
    pub closed spec fn rule_names(&self) -> Seq<Seq<char>> {
        rule_identifiers(*self.rules)
    }

    /// The rules compiled from the set's signatures.
    pub closed spec fn compiled_rules(&self) -> yara_x::Rules {
        *self.rules
    }

    /// The set's rules were built from exactly its signatures, in order.
    pub closed spec fn built_from_signatures(&self) -> bool {
        rules_built_from(*self.rules, self@)
    }
}

impl View for SigSet {
    /// The source texts of the signatures in the set, in the order they were added.
    type V = Seq<Seq<char>>;

    closed spec fn view(&self) -> Seq<Seq<char>> {
        sources_of(self.signatures@)
    }
}

/// Whether each of the first `upto` sources is accepted after the ones
/// before it.
pub open spec fn accepted_upto(sources: Seq<Seq<char>>, upto: int) -> bool {
    forall|k: int| 0 <= k < upto ==> #[trigger] source_may_compile(sources.take(k), sources[k], None)
}

/// What compiling the sources, in order, into one compiler can end with: on
/// success every source was accepted and the rules were built from exactly
/// these sources; otherwise the error of the first source that was rejected.
pub open spec fn compile_outcome(sources: Seq<Seq<char>>, r: Result<yara_x::Rules, Error>) -> bool {
    match r {
        Ok(rules) => accepted_upto(sources, sources.len() as int) && rules_built_from(rules, sources),
        Err(err) => err is SignatureError && exists|k: int|
            0 <= k < sources.len() && accepted_upto(sources, k) && #[trigger] source_may_compile(
                sources.take(k),
                sources[k],
                Some(err->SignatureError_0),
            ),
    }
}

/// Compiles the signatures, in order, into one rule set; stops at the first
/// signature that does not compile.
fn compile(signatures: &Vec<Signature>) -> (r: Result<yara_x::Rules, Error>)
    ensures
        compile_outcome(sources_of(signatures@), r),
        signatures.len() == 0 ==> (r matches Ok(rules) && rule_identifiers(rules) == Seq::<Seq<char>>::empty()),
{
    let ghost sources = sources_of(signatures@);
    let mut compiler = new_compiler();
    let n = signatures.len();
    for i in 0..n
        invariant
            n == signatures.len(),
            sources == sources_of(signatures@),
            n == 0 ==> compiled_identifiers(compiler) == Seq::<Seq<char>>::empty(),
            compiler_sources(compiler) == sources.take(i as int),
            accepted_upto(sources, i as int),
    {
        let ghost before = compiler_sources(compiler);
        let source = signatures[i].0.as_str();
        assert(source@ == sources[i as int]);
        let outcome = add_source(&mut compiler, source);
        assert(sources.take(i + 1) == sources.take(i as int).push(sources[i as int]));
        match outcome {
            Ok(()) => {
                assert forall|k: int| 0 <= k < i + 1 implies #[trigger] source_may_compile(sources.take(k), sources[k], None) by {
                    if k < i {
                        assert(source_may_compile(sources.take(k), sources[k], None));
                    }
                }
            },
            Err(e) => {
                assert(source_may_compile(sources.take(i as int), sources[i as int], Some(e)));
                let r: Result<yara_x::Rules, Error> = Err(Error::SignatureError(e));
                assert(r->Err_0->SignatureError_0 == e);
                return r;
            },
        }
    }
    assert(sources.take(n as int) == sources);
    Ok(build_rules(compiler))
}

/// What making a set of the sources, in order, can end with: on success the
/// set holds exactly these signatures, each was accepted, and its rules were
/// built from them; otherwise the error of the first rejected source.
pub open spec fn sig_set_outcome(sources: Seq<Seq<char>>, r: Result<SigSet, Error>) -> bool {
    match r {
        Ok(s) => s@ == sources && accepted_upto(sources, sources.len() as int) && s.built_from_signatures(),
        Err(err) => err is SignatureError && exists|k: int|
            0 <= k < sources.len() && accepted_upto(sources, k) && #[trigger] source_may_compile(
                sources.take(k),
                sources[k],
                Some(err->SignatureError_0),
            ),
    }
}

impl SigSet {
    /// Create a new empty SigSet.
    pub fn new() -> (s: SigSet)
        ensures
            s@ == Seq::<Seq<char>>::empty(),
            s.rule_names() == Seq::<Seq<char>>::empty(),
            s.built_from_signatures(),
    {
        let signatures: Vec<Signature> = Vec::new();
        let s = SigSet { rules: Arc::new(build_rules(new_compiler())), signatures };
        assert(s@ =~= Seq::<Seq<char>>::empty());
        s
    }

    /// Create a SigSet from a single signature.
    pub fn from_signature(signature: Signature) -> (r: Result<SigSet, Error>)
        ensures
            sig_set_outcome(seq![signature@], r),
    {
        let mut signatures: Vec<Signature> = Vec::new();
        signatures.push(signature);
        assert(sources_of(signatures@) =~= seq![signature@]);
        let rules = match compile(&signatures) {
            Ok(rules) => rules,
            Err(e) => {
                return Err(e);
            },
        };
        let s = SigSet { rules: Arc::new(rules), signatures };
        assert(s@ =~= seq![signature@]);
        Ok(s)
    }

    /// Create a SigSet from multiple signatures, kept in the given order.
    /// An empty list always gives the empty set.
    pub fn from_signatures(signatures: Vec<Signature>) -> (r: Result<SigSet, Error>)
        ensures
            sig_set_outcome(sources_of(signatures@), r),
            signatures.len() == 0 ==> (r matches Ok(s) && s.rule_names() == Seq::<Seq<char>>::empty()),
    {
        let rules = match compile(&signatures) {
            Ok(rules) => rules,
            Err(e) => {
                return Err(e);
            },
        };
        Ok(SigSet { rules: Arc::new(rules), signatures })
    }

    /// Add a single signature to this SigSet, returning a new SigSet.
    pub fn with_signature(self, signature: Signature) -> (r: Result<SigSet, Error>)
        ensures
            sig_set_outcome(self@.push(signature@), r),
    {
        let mut signatures = self.signatures;
        let ghost before = signatures@;
        signatures.push(signature);
        assert(sources_of(signatures@) =~= sources_of(before).push(signature@));
        Self::from_signatures(signatures)
    }

    /// Add multiple signatures to this SigSet, returning a new SigSet.
    pub fn with_signatures(self, new_signatures: Vec<Signature>) -> (r: Result<SigSet, Error>)
        ensures
            sig_set_outcome(self@ + sources_of(new_signatures@), r),
            self@.len() + new_signatures.len() == 0 ==> r is Ok,
    {
        let mut signatures = self.signatures;
        let ghost before = signatures@;
        let ghost added = new_signatures@;
        let mut new_signatures = new_signatures;
        signatures.append(&mut new_signatures);
        assert(sources_of(signatures@) =~= sources_of(before) + sources_of(added));
        Self::from_signatures(signatures)
    }

    /// The compiled rules of the set.
    pub(crate) fn rules(&self) -> (r: &Arc<yara_x::Rules>)
        ensures
            **r == self.compiled_rules(),
            rule_identifiers(**r) == self.rule_names(),
    {
        &self.rules
    }

    /// Get the number of rules in this signature set.
    pub fn count(&self) -> (n: usize)
        ensures
            n == self.rule_names().len(),
    {
        count_rules(self.rules())
    }
}

/// A character with ASCII capitals turned into small letters.
pub open spec fn ascii_lower(c: char) -> char {
    if 'A' <= c && c <= 'Z' {
        ((c as int) + 32) as char
    } else {
        c
    }
}

/// Whether a file extension marks a YARA file: `yar`, `yara` or `yrc`, in
/// any mix of capital and small letters.
pub open spec fn is_signature_extension_spec(extension: Seq<char>) -> bool {
    let lower = extension.map_values(|c: char| ascii_lower(c));
    lower == seq!['y', 'a', 'r'] || lower == seq!['y', 'a', 'r', 'a'] || lower == seq!['y', 'r', 'c']
}

/// What loading signatures from a directory does with one of its entries.
#[derive(Debug, Clone, Copy, PartialEq, Eq, Structural)]
pub enum DirEntryAction {
    /// Leave the entry alone.
    Skip,
    /// Load the signatures of the subdirectory too.
    Descend,
    /// Read the file as a signature.
    Load,
}

/// Whether `c`, with ASCII capitals made small, is the small letter `lower`.
fn char_matches(c: char, lower: char) -> (b: bool)
    requires
        'a' <= lower && lower <= 'z',
    ensures
        b == (ascii_lower(c) == lower),
{
    c == lower || (c as u32) + 32 == (lower as u32)
}

impl SigSet {
    /// Whether a file extension marks a YARA signature file: `yar`, `yara` or
    /// `yrc`, ignoring case.
    pub fn is_signature_extension(extension: &str) -> (b: bool)
        ensures
            b == is_signature_extension_spec(extension@),
    {
        let n = extension.unicode_len();
        let ghost lower = extension@.map_values(|c: char| ascii_lower(c));
        if n == 3 {
            let c0 = extension.get_char(0);
            let c1 = extension.get_char(1);
            let c2 = extension.get_char(2);
            let b = char_matches(c0, 'y') && ((char_matches(c1, 'a') && char_matches(c2, 'r')) || (char_matches(c1, 'r')
                && char_matches(c2, 'c')));
            assert(b ==> (lower =~= seq!['y', 'a', 'r'] || lower =~= seq!['y', 'r', 'c']));
            assert(lower =~= seq!['y', 'a', 'r'] ==> lower[0] == 'y' && lower[1] == 'a' && lower[2] == 'r');
            assert(lower =~= seq!['y', 'r', 'c'] ==> lower[0] == 'y' && lower[1] == 'r' && lower[2] == 'c');
            b
        } else if n == 4 {
            let c0 = extension.get_char(0);
            let c1 = extension.get_char(1);
            let c2 = extension.get_char(2);
            let c3 = extension.get_char(3);
            let b = char_matches(c0, 'y') && char_matches(c1, 'a') && char_matches(c2, 'r') && char_matches(c3, 'a');
            assert(b ==> lower =~= seq!['y', 'a', 'r', 'a']);
            assert(lower =~= seq!['y', 'a', 'r', 'a'] ==> lower[0] == 'y' && lower[1] == 'a' && lower[2] == 'r'
                && lower[3] == 'a');
            b
        } else {
            assert(lower.len() == n);
            false
        }
    }

    /// What loading signatures from a directory does with an entry: a
    /// subdirectory is descended into when loading recursively and skipped
    /// otherwise; a file is loaded when its extension marks a YARA file.
    pub fn dir_entry_action(is_dir: bool, recursive: bool, extension: Option<&str>) -> (a: DirEntryAction)
        ensures
            a == (if is_dir {
                if recursive {
                    DirEntryAction::Descend
                } else {
                    DirEntryAction::Skip
                }
            } else {
                match extension {
                    Some(e) => if is_signature_extension_spec(e@) {
                        DirEntryAction::Load
                    } else {
                        DirEntryAction::Skip
                    },
                    None => DirEntryAction::Skip,
                }
            }),
    {
        if is_dir {
            if recursive {
                DirEntryAction::Descend
            } else {
                DirEntryAction::Skip
            }
        } else {
            match extension {
                Some(e) => if Self::is_signature_extension(e) {
                    DirEntryAction::Load
                } else {
                    DirEntryAction::Skip
                },
                None => DirEntryAction::Skip,
            }
        }
    }
}

/// Adding two signatures one after the other keeps the same signatures, in
/// the same order, as adding both at once; adding one signature to the empty
/// set keeps what a set made from that one signature keeps.
pub proof fn lemma_adding_one_by_one(set: Seq<Seq<char>>, a: Signature, b: Signature)
    ensures
        set.push(a@).push(b@) == set + sources_of(seq![a, b]),
        Seq::<Seq<char>>::empty().push(a@) == sources_of(seq![a]),
{
    assert(set.push(a@).push(b@) =~= set + sources_of(seq![a, b]));
    assert(Seq::<Seq<char>>::empty().push(a@) =~= sources_of(seq![a]));
}

impl Clone for SigSet {
    /// A set with the same signatures, sharing the same compiled rules.
    fn clone(&self) -> (c: SigSet)
        ensures
            c@ == self@,
            c.compiled_rules() == self.compiled_rules(),
            c.rule_names() == self.rule_names(),
            c.built_from_signatures() == self.built_from_signatures(),
    {
        let mut signatures: Vec<Signature> = Vec::new();
        let n = self.signatures.len();
        for i in 0..n
            invariant
                n == self.signatures.len(),
                signatures.len() == i,
                sources_of(signatures@) == sources_of(self.signatures@.take(i as int)),
        {
            let ghost before = signatures@;
            signatures.push(self.signatures[i].clone());
            assert(self.signatures@.take(i + 1) == self.signatures@.take(i as int).push(self.signatures@[i as int]));
            assert(sources_of(signatures@) == sources_of(before).push(self.signatures@[i as int]@));
        }
        assert(self.signatures@.take(n as int) == self.signatures@);
        SigSet { rules: share_rules(&self.rules), signatures }
    }
}

impl Default for SigSet {
    fn default() -> (s: SigSet)
        ensures
            s@ == Seq::<Seq<char>>::empty(),
            s.rule_names() == Seq::<Seq<char>>::empty(),
            s.built_from_signatures(),
    {
        SigSet::new()
    }
}

} // verus!
