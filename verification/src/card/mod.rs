//! Card payment processing.
//!
//! Card functionality is gated behind the `CARD_ENABLED` flag; the
//! functions here take the flag's value as read from the environment.

use vstd::prelude::*;

use crate::text::{
    ascii_lower, ascii_lower_char, is_white_space, lemma_ascii_case_chars, lemma_trim_padded,
    lemma_white_space_ascii, same_text, to_ascii_lowercase, trim, trim_string,
};

pub mod screening;
pub mod webhooks;

verus! {

/// The words that switch the card feature on, once trimmed and lowercased.
pub open spec fn is_enabled_word(w: Seq<char>) -> bool {
    ||| w == "1"@
    ||| w == "true"@
    ||| w == "yes"@
    ||| w == "on"@
}

/// Whether a value of `CARD_ENABLED` switches the card feature on: its
/// trimmed, ASCII-lowercased form is one of `1`, `true`, `yes`, `on`.
pub open spec fn flag_value_enabled(v: Seq<char>) -> bool {
    is_enabled_word(ascii_lower(trim(v)))
}

/// Whether card functionality is enabled, given the value of the
/// `CARD_ENABLED` environment variable (`None` when it is unset).
pub fn is_card_enabled(value: Option<String>) -> (r: bool)
    ensures
        r == (value matches Some(v) && flag_value_enabled(v@)),
{
    match value {
        None => false,
        Some(v) => {
            let t = trim_string(v.as_str());
            let w = to_ascii_lowercase(t.as_str());
            same_text(&w, "1") || same_text(&w, "true") || same_text(&w, "yes") || same_text(&w, "on")
        },
    }
}


/// Exactly four words switch the card feature on: `1`, `true`, `yes` and
/// `on`. Any other word, such as `disabled` or `enabled`, leaves it off.
pub proof fn lemma_enabling_words_exactly(w: Seq<char>)
    ensures
        is_enabled_word(w) <==> seq!["1"@, "true"@, "yes"@, "on"@].contains(w),
        is_enabled_word(w) ==> 1 <= w.len() <= 4,
{
    let words = seq!["1"@, "true"@, "yes"@, "on"@];
    reveal_strlit("1");
    reveal_strlit("true");
    reveal_strlit("yes");
    reveal_strlit("on");
    if words.contains(w) {
        let k = choose|k: int| 0 <= k < words.len() && words[k] == w;
        assert(k == 0 || k == 1 || k == 2 || k == 3);
    }
    if w == "1"@ {
        assert(words[0] == w);
    } else if w == "true"@ {
        assert(words[1] == w);
    } else if w == "yes"@ {
        assert(words[2] == w);
    } else if w == "on"@ {
        assert(words[3] == w);
    }
}

/// The flag is on exactly where the value, once trimmed and ASCII-lowercased,
/// is one of the four enabling words.
pub proof fn lemma_flag_value_exactly(v: Seq<char>)
    ensures
        flag_value_enabled(v) <==> seq!["1"@, "true"@, "yes"@, "on"@].contains(ascii_lower(trim(v))),
{
    lemma_enabling_words_exactly(ascii_lower(trim(v)));
}

/// Whitespace around the value does not change the flag: for a value `w`
/// that neither starts nor ends with whitespace (such as `true`), any
/// whitespace before and after it (such as a `\r\n` line ending) gives the
/// same answer as `w` alone.
pub proof fn lemma_flag_ignores_surrounding_whitespace(pre: Seq<char>, w: Seq<char>, post: Seq<char>)
    requires
        forall|k: int| 0 <= k < pre.len() ==> is_white_space(#[trigger] pre[k]),
        forall|k: int| 0 <= k < post.len() ==> is_white_space(#[trigger] post[k]),
        w.len() > 0,
        !is_white_space(w[0]),
        !is_white_space(w.last()),
    ensures
        flag_value_enabled(pre + w + post) == flag_value_enabled(w),
{
    lemma_trim_padded(pre, w, post);
    lemma_trim_padded(Seq::empty(), w, Seq::empty());
    assert(Seq::<char>::empty() + w + Seq::<char>::empty() =~= w);
}


/// Each enabling word, in any ASCII case and with any whitespace around it
/// (such as `" TRUE\r\n"`), switches the card feature on.
pub proof fn lemma_enabling_words_padded(pre: Seq<char>, w: Seq<char>, post: Seq<char>)
    requires
        forall|k: int| 0 <= k < pre.len() ==> is_white_space(#[trigger] pre[k]),
        forall|k: int| 0 <= k < post.len() ==> is_white_space(#[trigger] post[k]),
        seq!["1"@, "true"@, "yes"@, "on"@].contains(ascii_lower(w)),
    ensures
        flag_value_enabled(pre + w + post),
{
    let words = seq!["1"@, "true"@, "yes"@, "on"@];
    reveal_strlit("1");
    reveal_strlit("true");
    reveal_strlit("yes");
    reveal_strlit("on");
    let l = ascii_lower(w);
    let k = choose|k: int| 0 <= k < words.len() && words[k] == l;
    assert(l.len() == w.len());
    assert(w.len() > 0);
    lemma_ascii_case_chars(w[0]);
    lemma_ascii_case_chars(w.last());
    assert(l[0] == ascii_lower_char(w[0]));
    assert(l[l.len() - 1] == ascii_lower_char(w.last()));
    lemma_white_space_ascii(w[0]);
    lemma_white_space_ascii(w.last());
    lemma_white_space_ascii(l[0]);
    lemma_white_space_ascii(l[l.len() - 1]);
    assert(!is_white_space(w[0]));
    assert(!is_white_space(w.last()));
    lemma_flag_ignores_surrounding_whitespace(pre, w, post);
    lemma_trim_padded(Seq::empty(), w, Seq::empty());
    assert(Seq::<char>::empty() + w + Seq::<char>::empty() =~= w);
    lemma_enabling_words_exactly(l);
}

} // verus!
