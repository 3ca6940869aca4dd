//! What a scan reports: clean, or the detections it made.

use vstd::prelude::*;

verus! {

/// Details about a detected threat: the identifier of the YARA rule that matched.
#[derive(Debug, Clone, PartialEq, Eq)]
pub struct Detection {
    /// The name/identifier of the YARA rule that matched.
    pub name: String,
}

impl View for Detection {
    type V = Seq<char>;

    open spec fn view(&self) -> Seq<char> {
        self.name@
    }
}

impl From<&str> for Detection {
    fn from(name: &str) -> (d: Detection)
        ensures
            d@ == name@,
    {
        Detection { name: name.to_string() }
    }
}

/// `from` is not tied to a spec function; its own `ensures` says what it returns.
impl vstd::std_specs::convert::FromSpecImpl<&str> for Detection {
    open spec fn obeys_from_spec() -> bool {
        false
    }

    open spec fn from_spec(name: &str) -> Detection {
        choose|d: Detection| d@ == name@
    }
}

/// The names of a sequence of detections, in order.
pub open spec fn names_of(detections: Seq<Detection>) -> Seq<Seq<char>> {
    detections.map_values(|d: Detection| d@)
}

/// The characters of each string, in order.
pub open spec fn strings_view(strings: Seq<String>) -> Seq<Seq<char>> {
    strings.map_values(|s: String| s@)
}

/// Result of a malware scan: clean, or the threats that were detected.
#[derive(Debug, Clone, PartialEq, Eq)]
pub enum ScanResult {
    /// No threats detected - the content is clean.
    Clean,
    /// One or more threats detected, with details about each detection.
    Malicious(Vec<Detection>),
}

impl ScanResult {
    /// The names of the detections this result reports, in order; none for `Clean`.
    pub open spec fn names(&self) -> Seq<Seq<char>> {
        match self {
            ScanResult::Clean => Seq::empty(),
            ScanResult::Malicious(detections) => names_of(detections@),
        }
    }

    /// A result is clean exactly when it reports no detection.
    pub open spec fn well_formed(&self) -> bool {
        match self {
            ScanResult::Clean => true,
            ScanResult::Malicious(detections) => detections.len() > 0,
        }
    }

    /// The result for the given matching rule identifiers: `Clean` when there
    /// are none, otherwise one detection per identifier, in the same order.
    pub fn from_matching_rules(rule_names: Vec<String>) -> (r: ScanResult)
        ensures
            r.names() == strings_view(rule_names@),
            r is Clean <==> rule_names.len() == 0,
            r.well_formed(),
    {
        let mut detections: Vec<Detection> = Vec::new();
        let n = rule_names.len();
        for i in 0..n
            invariant
                n == rule_names.len(),
                detections.len() == i,
                names_of(detections@) == strings_view(rule_names@.take(i as int)),
        {
            let name = rule_names[i].clone();
            let ghost before = detections@;
            detections.push(Detection { name });
            assert(detections@ == before.push(Detection { name: rule_names@[i as int] }));
            assert(rule_names@.take(i + 1) == rule_names@.take(i as int).push(rule_names@[i as int]));
            assert(names_of(detections@) == names_of(before).push(rule_names@[i as int]@));
        }
        assert(rule_names@.take(n as int) == rule_names@);
        if detections.len() == 0 {
            ScanResult::Clean
        } else {
            ScanResult::Malicious(detections)
        }
    }
}

/// The names of all detections of a sequence of results, result after result.
pub open spec fn all_names(results: Seq<ScanResult>) -> Seq<Seq<char>>
    decreases results.len(),
{
    if results.len() == 0 {
        Seq::empty()
    } else {
        all_names(results.drop_last()) + results.last().names()
    }
}

impl ScanResult {
    /// One result for several: the detections of all of them, in order;
    /// `Clean` when none of them detected anything.
    pub fn merge(results: Vec<ScanResult>) -> (r: ScanResult)
        ensures
            r.names() == all_names(results@),
            r is Clean <==> all_names(results@).len() == 0,
            r.well_formed(),
    {
        let mut detections: Vec<Detection> = Vec::new();
        let mut results = results;
        let ghost all = results@;
        let n = results.len();
        let mut i: usize = 0;
        while i < n
            invariant
                n == all.len(),
                i <= n,
                results@ == all,
                names_of(detections@) == all_names(all.take(i as int)),
            decreases n - i,
        {
            let ghost before = detections@;
            match &results[i] {
                ScanResult::Clean => {},
                ScanResult::Malicious(found) => {
                    let mut k: usize = 0;
                    while k < found.len()
                        invariant
                            k <= found.len(),
                            names_of(detections@) == names_of(before) + names_of(found@.take(k as int)),
                        decreases found.len() - k,
                    {
                        let ghost mid = detections@;
                        detections.push(Detection { name: found[k].name.clone() });
                        assert(found@.take(k + 1) == found@.take(k as int).push(found@[k as int]));
                        assert(names_of(detections@) == names_of(mid).push(found@[k as int]@));
                        k = k + 1;
                    }
                    assert(found@.take(found.len() as int) == found@);
                },
            }
            assert(all.take(i + 1).drop_last() == all.take(i as int));
            i = i + 1;
        }
        assert(all.take(n as int) == all);
        if detections.len() == 0 {
            ScanResult::Clean
        } else {
            ScanResult::Malicious(detections)
        }
    }
}

/// Merging results reports nothing exactly when each of the merged results is
/// clean (for results that are clean exactly when they report nothing): an
/// archive is clean exactly when every file it holds is.
pub proof fn lemma_merge_clean_iff_all_clean(results: Seq<ScanResult>)
    requires
        forall|i: int| 0 <= i < results.len() ==> (#[trigger] results[i]).well_formed(),
    ensures
        all_names(results).len() == 0 <==> forall|i: int| 0 <= i < results.len() ==> (#[trigger] results[i]) is Clean,
    decreases results.len(),
{
    if results.len() > 0 {
        let init = results.drop_last();
        assert forall|i: int| 0 <= i < init.len() implies (#[trigger] init[i]).well_formed() by {
            assert(init[i] == results[i]);
        }
        lemma_merge_clean_iff_all_clean(init);
        let last = results.last();
        if all_names(results).len() == 0 {
            assert forall|i: int| 0 <= i < results.len() implies (#[trigger] results[i]) is Clean by {
                if i < results.len() - 1 {
                    assert(init[i] == results[i]);
                } else {
                    assert(results[i].well_formed());
                    if let ScanResult::Malicious(ds) = last {
                        assert(names_of(ds@).len() == ds.len());
                    }
                }
            }
        }
        if forall|i: int| 0 <= i < results.len() ==> (#[trigger] results[i]) is Clean {
            assert forall|i: int| 0 <= i < init.len() implies (#[trigger] init[i]) is Clean by {
                assert(init[i] == results[i]);
            }
            assert(results[results.len() - 1] is Clean);
        }
    }
}

/// Merging results in two parts and then the two merged results gives the
/// detections of merging them all at once: detections of nested archives
/// come out flattened, in order.
pub proof fn lemma_merge_in_parts(first: Seq<ScanResult>, second: Seq<ScanResult>)
    ensures
        all_names(first + second) == all_names(first) + all_names(second),
    decreases second.len(),
{
    if second.len() == 0 {
        assert(first + second =~= first);
        assert(all_names(second) =~= Seq::<Seq<char>>::empty());
        assert(all_names(first) + all_names(second) =~= all_names(first));
    } else {
        let init = second.drop_last();
        lemma_merge_in_parts(first, init);
        assert((first + second).drop_last() =~= first + init);
        assert((first + second).last() == second.last());
        assert(all_names(first) + all_names(second) =~= (all_names(first) + all_names(init)) + second.last().names());
    }
}

/// Whether every name is among the allowed ones.
pub open spec fn names_within(names: Seq<Seq<char>>, allowed: Seq<Seq<char>>) -> bool {
    forall|i: int| 0 <= i < names.len() ==> allowed.contains(#[trigger] names[i])
}

/// The detections of merged results are among the allowed names when those of
/// each merged result are.
pub proof fn lemma_all_names_within(results: Seq<ScanResult>, allowed: Seq<Seq<char>>)
    requires
        forall|j: int| 0 <= j < results.len() ==> names_within((#[trigger] results[j]).names(), allowed),
    ensures
        names_within(all_names(results), allowed),
    decreases results.len(),
{
    if results.len() > 0 {
        let init = results.drop_last();
        assert forall|j: int| 0 <= j < init.len() implies names_within((#[trigger] init[j]).names(), allowed) by {
            assert(init[j] == results[j]);
        }
        lemma_all_names_within(init, allowed);
        let last = results[results.len() - 1];
        assert(names_within(last.names(), allowed));
        let all = all_names(results);
        assert(all == all_names(init) + last.names());
        assert forall|i: int| 0 <= i < all.len() implies allowed.contains(#[trigger] all[i]) by {
            if i < all_names(init).len() {
                assert(all[i] == all_names(init)[i]);
            } else {
                assert(all[i] == last.names()[i - all_names(init).len()]);
            }
        }
    }
}

impl From<String> for ScanResult {
    /// A malicious result with one detection of the given name.
    fn from(name: String) -> (r: ScanResult)
        ensures
            r is Malicious,
            r.names() == seq![name@],
    {
        let mut detections: Vec<Detection> = Vec::new();
        detections.push(Detection { name });
        ScanResult::Malicious(detections)
    }
}

/// `from` is not tied to a spec function; its own `ensures` says what it returns.
impl vstd::std_specs::convert::FromSpecImpl<String> for ScanResult {
    open spec fn obeys_from_spec() -> bool {
        false
    }

    open spec fn from_spec(name: String) -> ScanResult {
        choose|r: ScanResult| r is Malicious && r.names() == seq![name@]
    }
}

impl From<&str> for ScanResult {
    /// A malicious result with one detection of the given name.
    fn from(name: &str) -> (r: ScanResult)
        ensures
            r is Malicious,
            r.names() == seq![name@],
    {
        let mut detections: Vec<Detection> = Vec::new();
        detections.push(Detection { name: name.to_string() });
        ScanResult::Malicious(detections)
    }
}

/// `from` is not tied to a spec function; its own `ensures` says what it returns.
impl vstd::std_specs::convert::FromSpecImpl<&str> for ScanResult {
    open spec fn obeys_from_spec() -> bool {
        false
    }

    open spec fn from_spec(name: &str) -> ScanResult {
        choose|r: ScanResult| r is Malicious && r.names() == seq![name@]
    }
}

/// The characters of each string slice, in order.
pub open spec fn strs_view(strs: Seq<&str>) -> Seq<Seq<char>> {
    strs.map_values(|s: &str| s@)
}

impl<'a> From<Vec<&'a str>> for ScanResult {
    /// A malicious result with one detection per name, in order; `Clean`
    /// for an empty list, since `Malicious` means one or more threats.
    fn from(names: Vec<&'a str>) -> (r: ScanResult)
        ensures
            r.names() == strs_view(names@),
            r is Clean <==> names.len() == 0,
            r.well_formed(),
    {
        let mut detections: Vec<Detection> = Vec::new();
        let n = names.len();
        for i in 0..n
            invariant
                n == names.len(),
                detections.len() == i,
                names_of(detections@) == strs_view(names@.take(i as int)),
        {
            let ghost before = detections@;
            let d = Detection::from(names[i]);
            detections.push(d);
            assert(names@.take(i + 1) == names@.take(i as int).push(names@[i as int]));
            assert(names_of(detections@) == names_of(before).push(names@[i as int]@));
        }
        assert(names@.take(n as int) == names@);
        if detections.len() == 0 {
            ScanResult::Clean
        } else {
            ScanResult::Malicious(detections)
        }
    }
}

/// `from` is not tied to a spec function; its own `ensures` says what it returns.
impl<'a> vstd::std_specs::convert::FromSpecImpl<Vec<&'a str>> for ScanResult {
    open spec fn obeys_from_spec() -> bool {
        false
    }

    open spec fn from_spec(names: Vec<&'a str>) -> ScanResult {
        choose|r: ScanResult| r.names() == strs_view(names@) && r.well_formed()
    }
}

} // verus!
