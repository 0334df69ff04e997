//! Text as the protocol code reads it: UTF-8 decoding, trimming and splitting.

use vstd::prelude::*;
use vstd::utf8::{decode_utf8, valid_utf8};

verus! {

/// The characters with the Unicode property `White_Space`.
pub open spec fn white_space(c: char) -> bool {
    ||| '\u{9}' <= c <= '\u{d}'
    ||| c == ' '
    ||| c == '\u{85}'
    ||| c == '\u{a0}'
    ||| c == '\u{1680}'
    ||| '\u{2000}' <= c <= '\u{200a}'
    ||| c == '\u{2028}'
    ||| c == '\u{2029}'
    ||| c == '\u{202f}'
    ||| c == '\u{205f}'
    ||| c == '\u{3000}'
}

/// `text` without the white space at its end.
pub open spec fn end_trimmed(text: Seq<char>) -> Seq<char>
    decreases text.len(),
{
    if text.len() > 0 && white_space(text.last()) {
        end_trimmed(text.drop_last())
    } else {
        text
    }
}

/// `text` without the white space at its start.
pub open spec fn start_trimmed(text: Seq<char>) -> Seq<char>
    decreases text.len(),
{
    if text.len() > 0 && white_space(text.first()) {
        start_trimmed(text.drop_first())
    } else {
        text
    }
}

/// What stands before the first `delimiter`: all of `text`, where there is none.
pub open spec fn before(text: Seq<char>, delimiter: char) -> Seq<char>
    decreases text.len(),
{
    if text.len() == 0 || text.first() == delimiter {
        Seq::empty()
    } else {
        seq![text.first()] + before(text.drop_first(), delimiter)
    }
}

/// What stands behind the first `delimiter`: nothing, where there is none.
pub open spec fn after(text: Seq<char>, delimiter: char) -> Seq<char>
    decreases text.len(),
{
    if text.len() == 0 {
        Seq::empty()
    } else if text.first() == delimiter {
        text.drop_first()
    } else {
        after(text.drop_first(), delimiter)
    }
}

/// `text` without its first character, where that is `c`.
pub open spec fn without_first(text: Seq<char>, c: char) -> Seq<char> {
    if text.len() > 0 && text.first() == c {
        text.drop_first()
    } else {
        text
    }
}

/// `text` without its last character, where that is `c`.
pub open spec fn without_last(text: Seq<char>, c: char) -> Seq<char> {
    if text.len() > 0 && text.last() == c {
        text.drop_last()
    } else {
        text
    }
}

/// `str::trim_end`: removes trailing characters with the property `White_Space`.
pub assume_specification[ str::trim_end ](s: &str) -> (r: &str)
    ensures
        r@ == end_trimmed(s@),
;

/// `str::trim_start`: removes leading characters with the property `White_Space`.
pub assume_specification[ str::trim_start ](s: &str) -> (r: &str)
    ensures
        r@ == start_trimmed(s@),
;

/// The text that `String::from_utf8_lossy` makes of bytes: every maximal invalid sequence
/// becomes U+FFFD.
pub uninterp spec fn utf8_lossy(data: Seq<u8>) -> Seq<char>;

/// The text of bytes, decoded as it stands where they are UTF-8.
pub open spec fn lossy_text(data: Seq<u8>) -> Seq<char> {
    if valid_utf8(data) {
        decode_utf8(data)
    } else {
        utf8_lossy(data)
    }
}

/// `String::from_utf8_lossy`. Bytes that are UTF-8 are decoded as they stand; how many
/// replacement characters invalid bytes give is left to the name.
#[verifier::external_body]
pub(crate) fn decode_lossy(data: &[u8]) -> (r: String)
    ensures
        r@ == utf8_lossy(data@),
        valid_utf8(data@) ==> r@ == decode_utf8(data@),
{
    String::from_utf8_lossy(data).into_owned()
}

/// Why `String::from_utf8` refuses bytes that are not UTF-8.
pub uninterp spec fn utf8_refusal(data: Seq<u8>) -> std::string::FromUtf8Error;

/// `String::from_utf8`: decodes bytes that are UTF-8 and refuses all others, with the error
/// that [`utf8_refusal`] names.
#[verifier::external_body]
pub(crate) fn decode_strict(data: Vec<u8>) -> (r: Result<String, std::string::FromUtf8Error>)
    ensures
        r is Ok <==> valid_utf8(data@),
        r matches Ok(text) ==> text@ == decode_utf8(data@),
        r matches Err(error) ==> error == utf8_refusal(data@),
{
    String::from_utf8(data)
}

/// The error of `String::from_utf8`.
#[verifier::external_type_specification]
#[verifier::external_body]
pub struct ExFromUtf8Error(std::string::FromUtf8Error);

/// `str::split_once` with a character: the parts around its first occurrence.
#[verifier::external_body]
pub(crate) fn split_once(text: &str, delimiter: char) -> (r: Option<(&str, &str)>)
    ensures
        r is Some <==> text@.contains(delimiter),
        r matches Some((head, tail)) ==> {
            &&& !head@.contains(delimiter)
            &&& text@ == head@.push(delimiter) + tail@
        },
{
    text.split_once(delimiter)
}

/// `str::strip_prefix` with a character: the rest of a text that starts with it.
#[verifier::external_body]
fn strip_prefix(text: &str, prefix: char) -> (r: Option<&str>)
    ensures
        r is Some <==> (text@.len() > 0 && text@.first() == prefix),
        r matches Some(rest) ==> rest@ == text@.drop_first(),
{
    text.strip_prefix(prefix)
}

/// `str::strip_suffix` with a character: the rest of a text that ends with it.
#[verifier::external_body]
fn strip_suffix(text: &str, suffix: char) -> (r: Option<&str>)
    ensures
        r is Some <==> (text@.len() > 0 && text@.last() == suffix),
        r matches Some(rest) ==> rest@ == text@.drop_last(),
{
    text.strip_suffix(suffix)
}

/// A text without the delimiter stands before it.
pub proof fn lemma_before_without(text: Seq<char>, delimiter: char)
    requires
        !text.contains(delimiter),
    ensures
        before(text, delimiter) == text,
        after(text, delimiter) == Seq::<char>::empty(),
    decreases text.len(),
{
    if text.len() > 0 {
        assert(text.contains(text.first()));
        let rest = text.drop_first();
        assert forall|i: int| 0 <= i < rest.len() implies rest[i] != delimiter by {
            assert(text.contains(text[i + 1]));
        }
        lemma_before_without(rest, delimiter);
        assert(seq![text.first()] + rest =~= text);
    }
}

/// The parts around a delimiter are what stands before and behind it.
pub proof fn lemma_before_after(head: Seq<char>, delimiter: char, tail: Seq<char>)
    requires
        !head.contains(delimiter),
    ensures
        before(head.push(delimiter) + tail, delimiter) == head,
        after(head.push(delimiter) + tail, delimiter) == tail,
    decreases head.len(),
{
    let text = head.push(delimiter) + tail;
    if head.len() == 0 {
        assert(text.first() == delimiter);
        assert(text.drop_first() =~= tail);
        assert(head =~= Seq::<char>::empty());
    } else {
        assert(text.first() == head.first());
        assert(head.contains(head.first()));
        let rest = head.drop_first();
        assert forall|i: int| 0 <= i < rest.len() implies rest[i] != delimiter by {
            assert(head.contains(head[i + 1]));
        }
        assert(text.drop_first() =~= rest.push(delimiter) + tail);
        lemma_before_after(rest, delimiter, tail);
        assert(seq![head.first()] + rest =~= head);
    }
}

/// What stands before and behind the first delimiter is the text again, with the delimiter
/// between them, and the part before it holds none. Without a delimiter all of it stands
/// before.
pub proof fn law_parts_rebuild_text(text: Seq<char>, delimiter: char)
    ensures
        !before(text, delimiter).contains(delimiter),
        text.contains(delimiter) ==> text == before(text, delimiter).push(delimiter) + after(
            text,
            delimiter,
        ),
        !text.contains(delimiter) ==> text == before(text, delimiter) && after(
            text,
            delimiter,
        ).len() == 0,
    decreases text.len(),
{
    if text.len() > 0 {
        let rest = text.drop_first();
        law_parts_rebuild_text(rest, delimiter);
        if text.first() == delimiter {
            assert(text.contains(text[0]));
            assert(before(text, delimiter).push(delimiter) + after(text, delimiter) =~= text);
        } else {
            let head = before(text, delimiter);
            assert(head =~= seq![text.first()] + before(rest, delimiter));
            assert forall|i: int| 0 <= i < head.len() implies head[i] != delimiter by {
                if i > 0 {
                    assert(head[i] == before(rest, delimiter)[i - 1]);
                    assert(before(rest, delimiter).contains(before(rest, delimiter)[i - 1]));
                }
            }
            if rest.contains(delimiter) {
                let i = choose|i: int| 0 <= i < rest.len() && rest[i] == delimiter;
                assert(text[i + 1] == delimiter);
                let tail = after(rest, delimiter);
                assert(after(text, delimiter) == tail);
                assert(text =~= seq![text.first()] + (before(rest, delimiter).push(delimiter)
                    + tail));
                assert(text =~= head.push(delimiter) + tail);
            } else {
                assert forall|i: int| 0 <= i < text.len() implies text[i] != delimiter by {
                    if i > 0 {
                        assert(rest.contains(rest[i - 1]));
                    }
                }
                assert(text =~= head);
            }
        }
    }
}

/// Trimming removes white space and nothing else, all that there is on its side: the rest is
/// an end of the text, only white space stands before it, and none at its start.
pub proof fn law_start_trimmed(text: Seq<char>)
    ensures
        ({
            let rest = start_trimmed(text);
            let cut = text.len() - rest.len();
            &&& 0 <= cut
            &&& rest == text.skip(cut)
            &&& forall|i: int| 0 <= i < cut ==> white_space(#[trigger] text[i])
            &&& rest.len() > 0 ==> !white_space(rest[0])
        }),
    decreases text.len(),
{
    if text.len() > 0 && white_space(text.first()) {
        let tail = text.drop_first();
        law_start_trimmed(tail);
        let cut = text.len() - start_trimmed(text).len();
        assert(tail.skip(cut - 1) =~= text.skip(cut));
        assert forall|i: int| 0 <= i < cut implies white_space(#[trigger] text[i]) by {
            if i > 0 {
                assert(tail[i - 1] == text[i]);
            }
        }
    } else {
        assert(text.skip(0) =~= text);
    }
}

/// Trimming removes white space and nothing else, all that there is on its side: the rest is
/// a start of the text, only white space stands behind it, and none at its end.
pub proof fn law_end_trimmed(text: Seq<char>)
    ensures
        ({
            let rest = end_trimmed(text);
            &&& rest.len() <= text.len()
            &&& rest == text.take(rest.len() as int)
            &&& forall|i: int| rest.len() <= i < text.len() ==> white_space(#[trigger] text[i])
            &&& rest.len() > 0 ==> !white_space(rest[rest.len() - 1])
        }),
    decreases text.len(),
{
    if text.len() > 0 && white_space(text.last()) {
        let init = text.drop_last();
        law_end_trimmed(init);
        let rest = end_trimmed(text);
        assert(init.take(rest.len() as int) =~= text.take(rest.len() as int));
        assert forall|i: int| rest.len() <= i < text.len() implies white_space(
            #[trigger] text[i],
        ) by {
            if i < init.len() {
                assert(init[i] == text[i]);
            }
        }
    } else {
        assert(text.take(text.len() as int) =~= text);
    }
}

/// Splits `text` at the first `delimiter`; without one, all of it stands before.
pub fn split_first<'a>(text: &'a str, delimiter: char) -> (r: (&'a str, Option<&'a str>))
    ensures
        r.0@ == before(text@, delimiter),
        r.1 is Some <==> text@.contains(delimiter),
        r.1 matches Some(tail) ==> tail@ == after(text@, delimiter),
{
    match split_once(text, delimiter) {
        Some((head, tail)) => {
            proof {
                lemma_before_after(head@, delimiter, tail@);
            }
            (head, Some(tail))
        },
        None => {
            proof {
                lemma_before_without(text@, delimiter);
            }
            (text, None)
        },
    }
}

/// `text` without its first character, where that is `c`.
pub fn drop_first_if(text: &str, c: char) -> (r: &str)
    ensures
        r@ == without_first(text@, c),
{
    match strip_prefix(text, c) {
        Some(rest) => rest,
        None => text,
    }
}

/// `text` without its last character, where that is `c`.
pub fn drop_last_if(text: &str, c: char) -> (r: &str)
    ensures
        r@ == without_last(text@, c),
{
    match strip_suffix(text, c) {
        Some(rest) => rest,
        None => text,
    }
}

/// Whether two texts are the same.
pub fn same_text(left: &str, right: &str) -> (r: bool)
    ensures
        r == (left@ == right@),
{
    let a = left.as_bytes();
    let b = right.as_bytes();
    proof {
        vstd::utf8::encode_utf8_decode_utf8(left@);
        vstd::utf8::encode_utf8_decode_utf8(right@);
    }
    same_bytes(a, b)
}

/// Whether two byte strings are the same.
pub fn same_bytes(left: &[u8], right: &[u8]) -> (r: bool)
    ensures
        r == (left@ == right@),
{
    if left.len() != right.len() {
        return false;
    }
    let mut at: usize = 0;
    while at < left.len()
        invariant
            at <= left@.len() == right@.len(),
            forall|i: int| 0 <= i < at ==> left@[i] == right@[i],
        decreases left@.len() - at,
    {
        if left[at] != right[at] {
            return false;
        }
        at = at + 1;
    }
    assert(left@ =~= right@);
    true
}

} // verus!
