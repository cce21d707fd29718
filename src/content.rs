//! What a file contributes to the digest: binary detection, optional removal
//! of leading whitespace, and the placeholder texts for binary and unreadable
//! files.
use vstd::prelude::*;
use crate::text::{
    chars_of, join_lines, line_bounds, lines_of, push_chars, skip_leading_ws, trim_start,
};

verus! {

/// Whether `data` holds a null byte at some position.
pub open spec fn has_null_byte(data: Seq<u8>) -> bool {
    exists|i: int| 0 <= i < data.len() && data[i] == 0u8
}

/// Scans the bytes of a file for a null byte.
pub fn contains_null_byte(data: &[u8]) -> (r: bool)
    ensures
        r == has_null_byte(data@),
{
    let mut i: usize = 0;
    while i < data.len()
        invariant
            i <= data@.len(),
            forall|j: int| 0 <= j < i ==> data@[j] != 0u8,
        decreases data@.len() - i,
    {
        if data[i] == 0 {
            return true;
        }
        i = i + 1;
    }
    false
}

/// A file counts as binary when it is a regular file, its bytes could be read,
/// and they hold a null byte.
pub open spec fn binary_verdict(is_regular_file: bool, data: Option<Seq<u8>>) -> bool {
    is_regular_file && match data {
        Some(d) => has_null_byte(d),
        None => false,
    }
}

/// Decides whether a file is binary from what was learnt of it: whether it is
/// a regular file, and its bytes (`None` where they could not be read).
pub fn is_binary_content(is_regular_file: bool, data: Option<&[u8]>) -> (r: bool)
    ensures
        r == binary_verdict(
            is_regular_file,
            match data {
                Some(d) => Some(d@),
                None => None,
            },
        ),
{
    if !is_regular_file {
        return false;
    }
    match data {
        Some(d) => contains_null_byte(d),
        None => false,
    }
}

/// The text of a file after optional whitespace removal: with removal, each
/// line loses its leading whitespace and the lines are joined by `\n`, so that
/// a final newline is not kept; without, the text is unchanged.
pub open spec fn normalized(s: Seq<char>, whitespace_removal: bool) -> Seq<char> {
    if whitespace_removal {
        join_lines(lines_of(s).map_values(|l: Seq<char>| trim_start(l)))
    } else {
        s
    }
}

/// Applies optional whitespace removal to the text of a file.
pub fn normalize_content(content: &str, whitespace_removal: bool) -> (r: String)
    ensures
        r@ == normalized(content@, whitespace_removal),
{
    if !whitespace_removal {
        return String::from_str(content);
    }
    let v = chars_of(content);
    let bounds = line_bounds(&v);
    let ghost ls = lines_of(v@).map_values(|l: Seq<char>| trim_start(l));
    let mut out = String::new();
    let mut k: usize = 0;
    proof {
        assert(ls.take(0) =~= Seq::<Seq<char>>::empty());
    }
    while k < bounds.len()
        invariant
            k <= bounds@.len(),
            bounds@.len() == lines_of(v@).len() == ls.len(),
            forall|j: int| 0 <= j < bounds@.len() ==> #[trigger] bounds@[j].0 <= bounds@[j].1 <= v@.len(),
            forall|j: int|
                0 <= j < bounds@.len() ==> v@.subrange(bounds@[j].0 as int, bounds@[j].1 as int)
                    == #[trigger] lines_of(v@)[j],
            ls == lines_of(v@).map_values(|l: Seq<char>| trim_start(l)),
            out@ == join_lines(ls.take(k as int)),
        decreases bounds@.len() - k,
    {
        let (from, to) = bounds[k];
        assert(bounds@[k as int].0 <= bounds@[k as int].1 <= v@.len());
        let ghost before = out@;
        if k > 0 {
            out.push('\n');
        }
        let start = skip_leading_ws(&v, from, to);
        push_chars(&mut out, &v, start, to);
        proof {
            assert(v@.subrange(from as int, to as int) == lines_of(v@)[k as int]);
            assert(ls[k as int] == v@.subrange(start as int, to as int));
            assert(ls.take(k + 1).drop_last() =~= ls.take(k as int));
            if k > 0 {
                assert(out@ =~= before + seq!['\n'] + ls[k as int]);
            } else {
                assert(out@ =~= ls[0]);
            }
        }
        k = k + 1;
    }
    assert(ls.take(ls.len() as int) =~= ls);
    assert(v@ == content@);
    out
}

/// What stands in the digest for the content of a binary file.
pub open spec fn omitted_text() -> Seq<char> {
    "[Binary file omitted]"@
}

/// What stands in the digest for the content of a file that could not be read
/// as text.
pub open spec fn unreadable_text() -> Seq<char> {
    "[Error reading file]"@
}

/// The content recorded for a file: the binary placeholder for a binary
/// file, else its normalized text, else, where it could not be read as text,
/// the error placeholder.
pub open spec fn record_text(binary: bool, text: Option<Seq<char>>, whitespace_removal: bool) -> Seq<
    char,
> {
    if binary {
        omitted_text()
    } else {
        match text {
            Some(t) => normalized(t, whitespace_removal),
            None => unreadable_text(),
        }
    }
}

/// The content recorded for a file, from whether it is binary and from its
/// text (`None` where it could not be read as text).
pub fn record_content(binary: bool, text: Option<&str>, whitespace_removal: bool) -> (r: String)
    ensures
        r@ == record_text(
            binary,
            match text {
                Some(t) => Some(t@),
                None => None,
            },
            whitespace_removal,
        ),
{
    if binary {
        return String::from_str("[Binary file omitted]");
    }
    match text {
        Some(t) => normalize_content(t, whitespace_removal),
        None => String::from_str("[Error reading file]"),
    }
}

} // verus!
