//! What the scanner reads of a buffer's type: which archive format, if any,
//! it is to be unpacked as.

use archive::ArchiveFormat;
use mime_type::MimeFormat;
use vstd::prelude::*;

verus! {

/// The archive crate's format selector; opaque here.
#[verifier::external_type_specification]
#[verifier::external_body]
pub struct ExArchiveFormat(archive::ArchiveFormat);

/// The archive and compression formats the scanner can unpack, one for each
/// format of the archive crate.
#[derive(Debug, Clone, Copy, PartialEq, Eq, Structural)]
pub enum ArchiveKind {
    Zip,
    Tar,
    Ar,
    Deb,
    TarGz,
    TarBz2,
    TarXz,
    TarZst,
    TarLz4,
    Gz,
    Bz2,
    Xz,
    Lz4,
    Zst,
    SevenZ,
}

/// A file's type as far as scanning goes: an archive format to unpack before
/// matching, or any other type, whose bytes are matched as they are.
#[derive(Debug, Clone, Copy, PartialEq, Eq, Structural)]
pub enum FileType {
    Archive(ArchiveKind),
    Other,
}

impl ArchiveKind {
    /// The archive crate's format of the same name; variant for variant.
    #[verifier::external_body]
    pub(crate) fn to_format(self) -> ArchiveFormat {
        match self {
            ArchiveKind::Zip => ArchiveFormat::Zip, ArchiveKind::Tar => ArchiveFormat::Tar,
            ArchiveKind::Ar => ArchiveFormat::Ar, ArchiveKind::Deb => ArchiveFormat::Deb,
            ArchiveKind::TarGz => ArchiveFormat::TarGz, ArchiveKind::TarBz2 => ArchiveFormat::TarBz2,
            ArchiveKind::TarXz => ArchiveFormat::TarXz, ArchiveKind::TarZst => ArchiveFormat::TarZst,
            ArchiveKind::TarLz4 => ArchiveFormat::TarLz4, ArchiveKind::Gz => ArchiveFormat::Gz,
            ArchiveKind::Bz2 => ArchiveFormat::Bz2, ArchiveKind::Xz => ArchiveFormat::Xz,
            ArchiveKind::Lz4 => ArchiveFormat::Lz4, ArchiveKind::Zst => ArchiveFormat::Zst,
            ArchiveKind::SevenZ => ArchiveFormat::SevenZ,
        }
    }

    /// The kind of the same name as the archive crate's format; variant for variant.
    #[verifier::external_body]
    fn of_format(format: ArchiveFormat) -> ArchiveKind {
        match format {
            ArchiveFormat::Zip => ArchiveKind::Zip, ArchiveFormat::Tar => ArchiveKind::Tar,
            ArchiveFormat::Ar => ArchiveKind::Ar, ArchiveFormat::Deb => ArchiveKind::Deb,
            ArchiveFormat::TarGz => ArchiveKind::TarGz, ArchiveFormat::TarBz2 => ArchiveKind::TarBz2,
            ArchiveFormat::TarXz => ArchiveKind::TarXz, ArchiveFormat::TarZst => ArchiveKind::TarZst,
            ArchiveFormat::TarLz4 => ArchiveKind::TarLz4, ArchiveFormat::Gz => ArchiveKind::Gz,
            ArchiveFormat::Bz2 => ArchiveKind::Bz2, ArchiveFormat::Xz => ArchiveKind::Xz,
            ArchiveFormat::Lz4 => ArchiveKind::Lz4, ArchiveFormat::Zst => ArchiveKind::Zst,
            ArchiveFormat::SevenZ => ArchiveKind::SevenZ,
        }
    }
}

/// The MIME type string that `infer::get` reports for a buffer, or `None`
/// when none of its matchers recognizes the bytes.
pub uninterp spec fn inferred_mime(buf: Seq<u8>) -> Option<Seq<char>>;

/// The file type of a MIME type string: `None` when `mime_type` does not know
/// the string, `Archive` of the format that `archive::ArchiveFormat::try_from`
/// gives the MIME type, `Other` when it gives none.
pub uninterp spec fn file_type_of_mime(mime: Seq<char>) -> Option<FileType>;

/// The characters of an optional string.
pub open spec fn opt_string_view(s: Option<String>) -> Option<Seq<char>> {
    match s {
        Some(s) => Some(s@),
        None => None,
    }
}

/// Calls `infer::get` and hands out the MIME type string of the type it
/// finds. `infer::get` runs fixed magic-number matchers over the bytes, so
/// its result is named as a function of the bytes alone.
#[verifier::external_body]
fn infer_mime(buf: &[u8]) -> (r: Option<String>)
    ensures
        opt_string_view(r) == inferred_mime(buf@),
{
    infer::get(buf).map(|kind| kind.mime_type().to_string())
}

/// The archive kind a MIME type string gives: the ten MIME types of the
/// `mime_type` crate that `archive::ArchiveFormat::try_from` turns into a
/// format; every other string gives none.
pub open spec fn archive_kind_of_mime(mime: Seq<char>) -> Option<ArchiveKind> {
    if mime == "application/zip"@ {
        Some(ArchiveKind::Zip)
    } else if mime == "application/x-tar"@ {
        Some(ArchiveKind::Tar)
    } else if mime == "application/x-unix-archive"@ {
        Some(ArchiveKind::Ar)
    } else if mime == "application/vnd.debian.binary-package"@ {
        Some(ArchiveKind::Deb)
    } else if mime == "application/gzip"@ {
        Some(ArchiveKind::Gz)
    } else if mime == "application/x-bzip2"@ {
        Some(ArchiveKind::Bz2)
    } else if mime == "application/x-xz"@ {
        Some(ArchiveKind::Xz)
    } else if mime == "application/x-lz4"@ {
        Some(ArchiveKind::Lz4)
    } else if mime == "application/zstd"@ {
        Some(ArchiveKind::Zst)
    } else if mime == "application/x-7z-compressed"@ {
        Some(ArchiveKind::SevenZ)
    } else {
        None
    }
}

/// The archive kind of an optional file type, if it is an archive.
pub open spec fn archive_part(file_type: Option<FileType>) -> Option<ArchiveKind> {
    match file_type {
        Some(FileType::Archive(kind)) => Some(kind),
        _ => None,
    }
}

/// Calls `archive::ArchiveFormat::try_from` on the MIME type that
/// `mime_type::MimeType::from_mime` reads from the string (the argument type
/// `try_from` takes), and hands out the file type of the format it gives.
/// Both are fixed tables, so the outcome is named as a function of the string
/// alone: `None` when `from_mime` does not know the string. Which strings give
/// an archive is stated: `from_mime` maps each of the ten MIME strings of
/// `archive_kind_of_mime` (found only in its archive table) to the archive
/// type that `try_from` turns into that format, and `try_from` gives a format
/// for no other MIME type.
#[verifier::external_body]
fn file_type_for_mime(mime: &str) -> (r: Option<FileType>)
    ensures
        r == file_type_of_mime(mime@),
        archive_part(r) == archive_kind_of_mime(mime@),
{
    mime_type::MimeType::from_mime(mime).map(|m| match ArchiveFormat::try_from(&m) {
        Ok(format) => FileType::Archive(ArchiveKind::of_format(format)),
        Err(_) => FileType::Other,
    })
}

/// The file type inferred for a buffer: that of the MIME type `infer`
/// reports, as long as `mime_type` knows that MIME type.
pub open spec fn inferred_file_type(buf: Seq<u8>) -> Option<FileType> {
    match inferred_mime(buf) {
        Some(mime) => file_type_of_mime(mime),
        None => None,
    }
}

impl FileType {
    /// The file type of a MIME type string; `None` for a string that
    /// `mime_type` does not know.
    pub fn from_mime(mime: &str) -> (r: Option<FileType>)
        ensures
            r == file_type_of_mime(mime@),
            archive_part(r) == archive_kind_of_mime(mime@),
    {
        file_type_for_mime(mime)
    }

    /// Infer the file type of a buffer from its leading bytes.
    pub fn infer(buf: &[u8]) -> (r: Option<FileType>)
        ensures
            r == inferred_file_type(buf@),
            inferred_mime(buf@) matches Some(mime) ==> archive_part(r) == archive_kind_of_mime(mime),
    {
        match infer_mime(buf) {
            Some(mime) => file_type_for_mime(mime.as_str()),
            None => None,
        }
    }

    /// The archive format to unpack a buffer of this type as, if any.
    pub fn archive_kind(&self) -> (r: Option<ArchiveKind>)
        ensures
            r == (match *self {
                FileType::Archive(kind) => Some(kind),
                FileType::Other => None::<ArchiveKind>,
            }),
    {
        match self {
            FileType::Archive(kind) => Some(*kind),
            FileType::Other => None,
        }
    }
}

} // verus!
