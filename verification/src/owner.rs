use crate::encoding::strict_text;
use crate::text;
use crate::text::Text;
use vstd::prelude::*;
use vstd::utf8;

verus! {

/// The text of a line without the white space around it.
pub open spec fn line_text(line: Seq<u8>) -> Text {
    text::trim(utf8::decode_utf8(line))
}

/// Whether a line may stand in the header of `resolv.conf`: it is UTF-8, and is
/// blank or a comment.
pub open spec fn header_line(line: Seq<u8>) -> bool {
    &&& utf8::valid_utf8(line)
    &&& line_text(line).len() == 0 || line_text(line)[0] == '#'
}

/// How many lines at the start are header lines.
pub open spec fn header_len(lines: Seq<Seq<u8>>) -> int
    decreases lines.len(),
{
    if lines.len() == 0 || !header_line(lines[0]) {
        0
    } else {
        1 + header_len(lines.drop_first())
    }
}

/// The owner that a comment names, if it names one.
pub open spec fn named_owner(comment: Text) -> Option<Text> {
    if text::contains(comment, "systemd-resolved"@) {
        Some("systemd-resolved"@)
    } else if text::contains(comment, "NetworkManager"@) {
        Some("NetworkManager"@)
    } else if text::contains(comment, "resolvconf"@) {
        Some("resolvconf"@)
    } else {
        None
    }
}

/// The owner that the last of the lines to name one names, or the empty text.
pub open spec fn last_named(lines: Seq<Seq<u8>>) -> Text
    decreases lines.len(),
{
    if lines.len() == 0 {
        Seq::empty()
    } else {
        match named_owner(line_text(lines.last())) {
            Some(name) => name,
            None => last_named(lines.drop_last()),
        }
    }
}

/// The owner of a `resolv.conf`: the one that the last comment to name one in
/// its header names.
pub open spec fn owner(bytes: Seq<u8>) -> Text {
    let lines = text::byte_lines(bytes);
    last_named(lines.take(header_len(lines)))
}

/// A run of header lines that a line ends which is none has the header's length.
pub proof fn lemma_header_len(lines: Seq<Seq<u8>>, k: int)
    requires
        0 <= k <= lines.len(),
        forall|j: int| 0 <= j < k ==> header_line(#[trigger] lines[j]),
        k < lines.len() ==> !header_line(lines[k]),
    ensures
        header_len(lines) == k,
    decreases lines.len(),
{
    if k > 0 {
        assert(header_line(lines[0]));
        assert forall|j: int| 0 <= j < k - 1 implies header_line(
            #[trigger] lines.drop_first()[j],
        ) by {
            assert(lines[j + 1] == lines.drop_first()[j]);
        }
        lemma_header_len(lines.drop_first(), k - 1);
    }
}

/// The owner that a comment names, or `None` where it names none.
pub fn owner_in_comment(comment: &[char]) -> (r: Option<String>)
    ensures
        r is Some <==> named_owner(comment@) is Some,
        r matches Some(name) ==> named_owner(comment@) == Some(name@),
{
    if text::has_part(comment, text::chars_of("systemd-resolved").as_slice()) {
        Some("systemd-resolved".to_string())
    } else if text::has_part(comment, text::chars_of("NetworkManager").as_slice()) {
        Some("NetworkManager".to_string())
    } else if text::has_part(comment, text::chars_of("resolvconf").as_slice()) {
        Some("resolvconf".to_string())
    } else {
        None
    }
}

/// Determine the owner of `/etc/resolv.conf` by scanning header comments.
pub fn resolv_owner(bs: &[u8]) -> (r: String)
    ensures
        r@ == owner(bs@),
{
    let lines = text::byte_lines_of(bs);
    let ghost all = text::byte_lines(bs@);
    let mut likely = String::new();
    assert(all.take(0) == Seq::<Seq<u8>>::empty());
    for i in 0..lines.len()
        invariant
            all == text::byte_lines(bs@),
            text::pieces(lines@) == all,
            likely@ == last_named(all.take(i as int)),
            forall|j: int| 0 <= j < i ==> header_line(#[trigger] all[j]),
    {
        assert(all[i as int] == lines@[i as int]@);
        assert(all.take(i + 1).drop_last() == all.take(i as int));
        let chars = match strict_text(lines[i]) {
            Some(line) => text::chars_of(line),
            None => {
                proof {
                    lemma_header_len(all, i as int);
                }
                return likely;
            },
        };
        let line = text::trimmed(chars.as_slice());
        if line.len() > 0 && line[0] != '#' {
            proof {
                lemma_header_len(all, i as int);
            }
            return likely;
        }
        if let Some(name) = owner_in_comment(line) {
            likely = name;
        }
    }
    proof {
        lemma_header_len(all, all.len() as int);
        assert(all.take(all.len() as int) == all);
    }
    likely
}

} // verus!
