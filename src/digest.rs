//! The digest: one Markdown section per file, holding its path and content.
use vstd::prelude::*;
use crate::content::{binary_verdict, has_null_byte, omitted_text, record_content, record_text};

verus! {

/// What the digest holds of one file: its path, and its content or a
/// placeholder that stands for it.
pub struct FileRecord {
    pub path: String,
    pub content: String,
}

/// Builds the record of a file from what was learnt of it: whether it is
/// binary, and its text (`None` where it could not be read as text).
pub fn file_record(path: String, binary: bool, text: Option<&str>, whitespace_removal: bool) -> (r:
    FileRecord)
    ensures
        r.path@ == path@,
        r.content@ == record_text(
            binary,
            match text {
                Some(t) => Some(t@),
                None => None,
            },
            whitespace_removal,
        ),
{
    let content = record_content(binary, text, whitespace_removal);
    FileRecord { path, content }
}

/// The section of one file: a level-two heading with its path, a blank line,
/// a fenced block with its content, and a blank line.
pub open spec fn section_text(path: Seq<char>, content: Seq<char>) -> Seq<char> {
    "## File: "@ + path + "\n\n```\n"@ + content + "\n```\n\n"@
}

/// The text of the digest of `records`: their sections, in order.
pub open spec fn digest_text(records: Seq<FileRecord>) -> Seq<char>
    decreases records.len(),
{
    if records.len() == 0 {
        Seq::empty()
    } else {
        digest_text(records.drop_last()) + section_text(
            records.last().path@,
            records.last().content@,
        )
    }
}

/// Renders the section of one file.
pub fn render_section(path: &str, content: &str) -> (r: String)
    ensures
        r@ == section_text(path@, content@),
{
    let mut r = String::from_str("## File: ");
    r.append(path);
    r.append("\n\n```\n");
    r.append(content);
    r.append("\n```\n\n");
    r
}

/// Renders the whole digest, the sections in the order of `records`.
pub fn render_digest(records: &[FileRecord]) -> (r: String)
    ensures
        r@ == digest_text(records@),
{
    let mut r = String::new();
    let mut k: usize = 0;
    proof {
        assert(records@.take(0) =~= Seq::<FileRecord>::empty());
    }
    while k < records.len()
        invariant
            k <= records@.len(),
            r@ == digest_text(records@.take(k as int)),
        decreases records@.len() - k,
    {
        let section = render_section(records[k].path.as_str(), records[k].content.as_str());
        r.append(section.as_str());
        assert(records@.take(k + 1).drop_last() =~= records@.take(k as int));
        k = k + 1;
    }
    assert(records@.take(records@.len() as int) =~= records@);
    r
}

/// A regular file whose bytes hold a null byte is recorded with the binary
/// placeholder, whatever its text, never with its own bytes.
pub proof fn lemma_null_byte_file_omitted(
    data: Seq<u8>,
    text: Option<Seq<char>>,
    whitespace_removal: bool,
)
    requires
        has_null_byte(data),
    ensures
        record_text(binary_verdict(true, Some(data)), text, whitespace_removal) == omitted_text(),
{
}

} // verus!
