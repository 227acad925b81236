//! Text helpers: white space, the end-of-stream marker and decimal numbers.
use vstd::prelude::*;

verus! {

/// Whether `c` has the Unicode property `White_Space`.
pub open spec fn is_white_space(c: char) -> bool {
    let code = c as u32;
    ||| 0x09 <= code <= 0x0d
    ||| code == 0x20
    ||| code == 0x85
    ||| code == 0xa0
    ||| code == 0x1680
    ||| 0x2000 <= code <= 0x200a
    ||| code == 0x2028
    ||| code == 0x2029
    ||| code == 0x202f
    ||| code == 0x205f
    ||| code == 0x3000
}

/// Whether every character of `text` is white space.
pub open spec fn blank(text: Seq<char>) -> bool {
    forall|i: int| 0 <= i < text.len() ==> is_white_space(#[trigger] text[i])
}

/// Whether `text` is `core` with nothing but white space around it.
pub open spec fn is_padded(text: Seq<char>, core: Seq<char>) -> bool {
    exists|before: Seq<char>, after: Seq<char>|
        blank(before) && blank(after) && text == #[trigger] (before + core + after)
}

/// Whether `text` neither begins nor ends with white space.
pub open spec fn has_tight_ends(text: Seq<char>) -> bool {
    text.len() > 0 ==> !is_white_space(text[0]) && !is_white_space(text.last())
}

/// `str::trim`: the text without the white space at both ends, where white
/// space is Unicode's `White_Space` property.
#[verifier::external_body]
fn trim(text: &str) -> (trimmed: &str)
    ensures
        is_padded(text@, trimmed@),
        has_tight_ends(trimmed@),
{
    text.trim()
}

/// The decimal digit `digit` as a character.
pub open spec fn decimal_digit(digit: nat) -> char {
    (48 + digit) as char
}

/// The decimal notation of `n`, without leading zeros.
pub open spec fn decimal(n: nat) -> Seq<char>
    decreases n,
{
    if n < 10 {
        seq![decimal_digit(n)]
    } else {
        decimal(n / 10).push(decimal_digit(n % 10))
    }
}

/// `u64::to_string`: the decimal notation of `n`.
#[verifier::external_body]
fn u64_to_string(n: u64) -> (text: String)
    ensures
        text@ == decimal(n as nat),
{
    n.to_string()
}

/// A text has at most one tight core: what is left once the white space at
/// both ends is gone does not depend on where it was cut.
proof fn lemma_core_is_unique(text: Seq<char>, core1: Seq<char>, core2: Seq<char>)
    requires
        is_padded(text, core1),
        has_tight_ends(core1),
        is_padded(text, core2),
        has_tight_ends(core2),
    ensures
        core1 == core2,
{
    let (before1, after1): (Seq<char>, Seq<char>) = choose|before: Seq<char>, after: Seq<char>|
        blank(before) && blank(after) && text == #[trigger] (before + core1 + after);
    let (before2, after2): (Seq<char>, Seq<char>) = choose|before: Seq<char>, after: Seq<char>|
        blank(before) && blank(after) && text == #[trigger] (before + core2 + after);
    let first1 = before1.len() as int;
    let first2 = before2.len() as int;
    let last1 = first1 + core1.len() - 1;
    let last2 = first2 + core2.len() - 1;
    if core1.len() > 0 {
        assert(text[first1] == core1[0]);
        assert(text[last1] == core1.last());
        lemma_core_covers(text, before2, core2, after2, first1);
        lemma_core_covers(text, before2, core2, after2, last1);
    }
    if core2.len() > 0 {
        assert(text[first2] == core2[0]);
        assert(text[last2] == core2.last());
        lemma_core_covers(text, before1, core1, after1, first2);
        lemma_core_covers(text, before1, core1, after1, last2);
    }
    assert(core1 =~= text.subrange(first1, last1 + 1));
    assert(core2 =~= text.subrange(first2, last2 + 1));
}

/// Every character that is not white space lies in the core.
proof fn lemma_core_covers(
    text: Seq<char>,
    before: Seq<char>,
    core: Seq<char>,
    after: Seq<char>,
    i: int,
)
    requires
        blank(before),
        blank(after),
        text == before + core + after,
        0 <= i < text.len(),
        !is_white_space(text[i]),
    ensures
        before.len() <= i < before.len() + core.len(),
{
    if i < before.len() {
        assert(text[i] == before[i]);
    } else if i >= before.len() + core.len() {
        assert(text[i] == after[i - before.len() - core.len()]);
    }
}

/// Whether the two texts are the same.
pub(crate) fn same_text(a: &str, b: &str) -> (same: bool)
    ensures
        same == (a@ == b@),
{
    a.to_owned() == b.to_owned()
}

/// Whether `data` is the payload that ends a stream: `[DONE]`, with any white
/// space around it.
pub fn is_done_marker(data: &str) -> (done: bool)
    ensures
        done == is_padded(data@, "[DONE]"@),
{
    let trimmed = trim(data);
    proof {
        reveal_strlit("[DONE]");
        assert(has_tight_ends("[DONE]"@));
        if is_padded(data@, "[DONE]"@) {
            lemma_core_is_unique(data@, trimmed@, "[DONE]"@);
        }
    }
    same_text(trimmed, "[DONE]")
}

/// Whether `text` holds nothing but white space.
pub fn is_blank(text: &str) -> (is: bool)
    ensures
        is == blank(text@),
{
    let trimmed = trim(text);
    proof {
        let empty = Seq::<char>::empty();
        if blank(text@) {
            assert(text@ =~= text@ + empty + empty);
            assert(is_padded(text@, empty));
            lemma_core_is_unique(text@, trimmed@, empty);
        }
        if trimmed@.len() == 0 {
            let (before, after): (Seq<char>, Seq<char>) = choose|
                before: Seq<char>,
                after: Seq<char>,
            |
                blank(before) && blank(after) && text@ == #[trigger] (before + trimmed@ + after);
            assert forall|i: int| 0 <= i < text@.len() implies is_white_space(
                #[trigger] text@[i],
            ) by {
                if i < before.len() {
                    assert(text@[i] == before[i]);
                } else {
                    assert(text@[i] == after[i - before.len()]);
                }
            }
        }
    }
    trimmed.is_empty()
}

/// `prefix` followed by `rest`.
pub(crate) fn joined(prefix: &str, rest: &str) -> (text: String)
    ensures
        text@ == prefix@ + rest@,
{
    let mut text = prefix.to_owned();
    text.append(rest);
    text
}

/// The identifier of the message with number `n`.
pub fn message_id(n: u64) -> (id: String)
    ensures
        id@ == "msg_"@ + decimal(n as nat),
{
    joined("msg_", u64_to_string(n).as_str())
}

} // verus!
