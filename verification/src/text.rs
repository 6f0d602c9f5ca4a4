//! Character-level text helpers: ASCII lowercasing, Unicode trimming,
//! comma splitting and Unicode uppercasing.

use vstd::prelude::*;

verus! {

broadcast use vstd::string::group_string_axioms;

// ---------------------------------------------------------------------------
// Outside functions of std that the text helpers rest on
// ---------------------------------------------------------------------------

/// What `str::to_uppercase` returns for a string: its Unicode uppercase form.
pub uninterp spec fn spec_to_uppercase(s: Seq<char>) -> Seq<char>;

/// Calls `str::to_uppercase`; the result is `spec_to_uppercase(s@)`. As
/// documented, every character has an uppercase mapping of one or more
/// characters (itself where it has no other), so the result is empty exactly
/// where `s` is. The Unicode uppercase mapping of an ASCII character is its
/// ASCII uppercase (`a`..=`z` become `A`..=`Z`, other ASCII characters have
/// no other mapping), so an ASCII string uppercases to its ASCII-uppercase
/// form. Nothing else is stated of the mapping.
#[verifier::external_body]
pub(crate) fn to_uppercase(s: &str) -> (r: String)
    ensures
        r@ == spec_to_uppercase(s@),
        (r@.len() == 0) == (s@.len() == 0),
        is_ascii_text(s@) ==> r@ == ascii_upper(s@),
{
    s.to_uppercase()
}

/// Calls `String::push`, which appends one character at the end.
#[verifier::external_body]
pub(crate) fn push_char(s: &mut String, c: char)
    ensures
        final(s)@ == old(s)@.push(c),
{
    s.push(c)
}

// ---------------------------------------------------------------------------
// Whitespace
// ---------------------------------------------------------------------------

/// Whether `c` has the Unicode `White_Space` property, which is what
/// `char::is_whitespace` answers: U+0009..=U+000D, U+0020, U+0085, U+00A0,
/// U+1680, U+2000..=U+200A, U+2028, U+2029, U+202F, U+205F and U+3000.
pub open spec fn is_white_space(c: char) -> bool {
    let n = c as u32;
    ||| 0x09 <= n && n <= 0x0d
    ||| n == 0x20
    ||| n == 0x85
    ||| n == 0xa0
    ||| n == 0x1680
    ||| 0x2000 <= n && n <= 0x200a
    ||| n == 0x2028
    ||| n == 0x2029
    ||| n == 0x202f
    ||| n == 0x205f
    ||| n == 0x3000
}

/// Whether `c` is whitespace, as `char::is_whitespace` answers.
pub fn is_whitespace(c: char) -> (r: bool)
    ensures
        r == is_white_space(c),
{
    let n = c as u32;
    (0x09 <= n && n <= 0x0d) || n == 0x20 || n == 0x85 || n == 0xa0 || n == 0x1680 || (0x2000
        <= n && n <= 0x200a) || n == 0x2028 || n == 0x2029 || n == 0x202f || n == 0x205f || n
        == 0x3000
}

// ---------------------------------------------------------------------------
// Characters of a string
// ---------------------------------------------------------------------------

/// The characters of `s`, in order.
pub fn chars_of(s: &str) -> (v: Vec<char>)
    ensures
        v@ == s@,
{
    let mut v: Vec<char> = Vec::new();
    for c in it: s.chars()
        invariant
            it.seq() == s@,
            v@ == it.seq().take(it.index() as int),
    {
        v.push(c);
    }
    v
}

/// Whether `a` holds exactly the characters of `b`.
pub fn same_text(a: &String, b: &str) -> (r: bool)
    ensures
        r == (a@ == b@),
{
    let b_owned = b.to_owned();
    *a == b_owned
}

/// The string made of the characters `v[from..to]`.
pub fn string_from_chars(v: &Vec<char>, from: usize, to: usize) -> (s: String)
    requires
        from <= to <= v@.len(),
    ensures
        s@ == v@.subrange(from as int, to as int),
{
    let mut s = String::new();
    let mut i: usize = from;
    while i < to
        invariant
            from <= i <= to <= v@.len(),
            s@ == v@.subrange(from as int, i as int),
        decreases to - i,
    {
        push_char(&mut s, v[i]);
        i = i + 1;
        assert(s@ =~= v@.subrange(from as int, i as int));
    }
    s
}


// ---------------------------------------------------------------------------
// ASCII lowercase
// ---------------------------------------------------------------------------

/// The ASCII-lowercase form of one character: `A`..=`Z` become `a`..=`z`,
/// every other character stays as it is.
pub open spec fn ascii_lower_char(c: char) -> char {
    if 'A' <= c && c <= 'Z' {
        ((c as u32) + 32) as char
    } else {
        c
    }
}

/// The ASCII-lowercase form of a string, character by character.
pub open spec fn ascii_lower(s: Seq<char>) -> Seq<char> {
    s.map_values(|c: char| ascii_lower_char(c))
}

/// The ASCII-uppercase form of one character: `a`..=`z` become `A`..=`Z`,
/// every other character stays as it is.
pub open spec fn ascii_upper_char(c: char) -> char {
    if 'a' <= c && c <= 'z' {
        ((c as u32) - 32) as char
    } else {
        c
    }
}

/// The ASCII-uppercase form of a string, character by character.
pub open spec fn ascii_upper(s: Seq<char>) -> Seq<char> {
    s.map_values(|c: char| ascii_upper_char(c))
}

/// Whether every character of `s` is ASCII.
pub open spec fn is_ascii_text(s: Seq<char>) -> bool {
    forall|i: int| 0 <= i < s.len() ==> (#[trigger] s[i] as u32) < 128
}

/// Lowercasing first does not change the ASCII-uppercase form.
pub proof fn lemma_ascii_upper_of_lower(s: Seq<char>)
    ensures
        ascii_upper(ascii_lower(s)) == ascii_upper(s),
{
    assert forall|i: int| 0 <= i < s.len() implies #[trigger] ascii_upper_char(
        ascii_lower_char(s[i]),
    ) == ascii_upper_char(s[i]) by {
        let c = s[i];
        if 'A' <= c && c <= 'Z' {
            assert(((c as u32) + 32) as char as u32 == (c as u32) + 32);
        } else if 'a' <= c && c <= 'z' {
            assert(((c as u32) - 32) as char as u32 == (c as u32) - 32);
        }
    }
    assert(ascii_upper(ascii_lower(s)) =~= ascii_upper(s));
}

/// Lowercases one character as `char::to_ascii_lowercase` does.
pub fn ascii_lower_char_exec(c: char) -> (r: char)
    ensures
        r == ascii_lower_char(c),
{
    if 'A' <= c && c <= 'Z' {
        ((c as u8) + 32) as char
    } else {
        c
    }
}

/// The ASCII-lowercase copy of `s`, as `str::to_ascii_lowercase` gives it.
pub fn to_ascii_lowercase(s: &str) -> (r: String)
    ensures
        r@ == ascii_lower(s@),
{
    let v = chars_of(s);
    let mut r = String::new();
    let mut i: usize = 0;
    while i < v.len()
        invariant
            i <= v@.len(),
            v@ == s@,
            r@ == ascii_lower(v@.take(i as int)),
        decreases v@.len() - i,
    {
        let c = ascii_lower_char_exec(v[i]);
        push_char(&mut r, c);
        assert(v@.take(i + 1) =~= v@.take(i as int).push(v@[i as int]));
        i = i + 1;
        assert(r@ =~= ascii_lower(v@.take(i as int)));
    }
    assert(v@.take(v@.len() as int) =~= v@);
    r
}

// ---------------------------------------------------------------------------
// Trimming
// ---------------------------------------------------------------------------

/// `s` without its leading whitespace.
pub open spec fn trim_start(s: Seq<char>) -> Seq<char>
    decreases s.len(),
{
    if s.len() > 0 && is_white_space(s[0]) {
        trim_start(s.drop_first())
    } else {
        s
    }
}

/// `s` without its trailing whitespace.
pub open spec fn trim_end(s: Seq<char>) -> Seq<char>
    decreases s.len(),
{
    if s.len() > 0 && is_white_space(s.last()) {
        trim_end(s.drop_last())
    } else {
        s
    }
}

/// `s` without leading and trailing whitespace, as `str::trim` gives it.
pub open spec fn trim(s: Seq<char>) -> Seq<char> {
    trim_end(trim_start(s))
}

/// Where the leading whitespace of `s` ends at `i`, trimming the start
/// leaves `s[i..]`.
proof fn lemma_trim_start_at(s: Seq<char>, i: int)
    requires
        0 <= i <= s.len(),
        forall|k: int| 0 <= k < i ==> is_white_space(#[trigger] s[k]),
        i < s.len() ==> !is_white_space(s[i]),
    ensures
        trim_start(s) == s.subrange(i, s.len() as int),
    decreases i,
{
    if i == 0 {
        assert(s.subrange(0, s.len() as int) =~= s);
    } else {
        assert(is_white_space(s[0]));
        let t = s.drop_first();
        assert forall|k: int| 0 <= k < i - 1 implies is_white_space(#[trigger] t[k]) by {
            assert(t[k] == s[k + 1]);
        }
        lemma_trim_start_at(t, i - 1);
        assert(t.subrange(i - 1, t.len() as int) =~= s.subrange(i, s.len() as int));
    }
}

/// Where the trailing whitespace of `s` starts at `j`, trimming the end
/// leaves `s[..j]`.
proof fn lemma_trim_end_at(s: Seq<char>, j: int)
    requires
        0 <= j <= s.len(),
        forall|k: int| j <= k < s.len() ==> is_white_space(#[trigger] s[k]),
        j > 0 ==> !is_white_space(s[j - 1]),
    ensures
        trim_end(s) == s.subrange(0, j),
    decreases s.len() - j,
{
    if j == s.len() {
        assert(s.subrange(0, j) =~= s);
    } else {
        assert(is_white_space(s[s.len() - 1]));
        let t = s.drop_last();
        assert forall|k: int| j <= k < t.len() implies is_white_space(#[trigger] t[k]) by {
            assert(t[k] == s[k]);
        }
        lemma_trim_end_at(t, j);
        assert(t.subrange(0, j) =~= s.subrange(0, j));
    }
}


/// What trimming leaves: a contiguous part `s[i..j]` of `s` such that all
/// that was cut off is whitespace and the part neither starts nor ends with
/// whitespace.
pub proof fn lemma_trim_shape(s: Seq<char>)
    ensures
        exists|i: int, j: int|
            0 <= i <= j <= s.len() && trim(s) == s.subrange(i, j) && (forall|k: int|
                0 <= k < i ==> is_white_space(#[trigger] s[k])) && (forall|k: int|
                j <= k < s.len() ==> is_white_space(#[trigger] s[k])),
        trim(s).len() > 0 ==> !is_white_space(trim(s)[0]) && !is_white_space(
            trim(s).last(),
        ),
{
    lemma_trim_start_shape(s);
    let i = s.len() - trim_start(s).len();
    let t = trim_start(s);
    lemma_trim_end_shape(t);
    let j = i + trim(s).len();
    assert(t =~= s.subrange(i, s.len() as int));
    assert(trim(s) =~= t.subrange(0, trim(s).len() as int));
    assert(trim(s) =~= s.subrange(i, j));
    assert forall|k: int| j <= k < s.len() implies is_white_space(#[trigger] s[k]) by {
        assert(s[k] == t[k - i]);
    }
    if trim(s).len() > 0 {
        assert(trim(s)[0] == t[0]);
    }
}

/// Trimming the start cuts off a whitespace prefix and leaves a part that is
/// empty or starts with a non-whitespace character.
proof fn lemma_trim_start_shape(s: Seq<char>)
    ensures
        trim_start(s).len() <= s.len(),
        trim_start(s) == s.subrange(s.len() - trim_start(s).len(), s.len() as int),
        forall|k: int|
            0 <= k < s.len() - trim_start(s).len() ==> is_white_space(#[trigger] s[k]),
        trim_start(s).len() > 0 ==> !is_white_space(trim_start(s)[0]),
    decreases s.len(),
{
    if s.len() > 0 && is_white_space(s[0]) {
        let t = s.drop_first();
        lemma_trim_start_shape(t);
        assert forall|k: int|
            0 <= k < s.len() - trim_start(s).len() implies is_white_space(#[trigger] s[k]) by {
            if k > 0 {
                assert(s[k] == t[k - 1]);
            }
        }
        assert(t.subrange(t.len() - trim_start(t).len(), t.len() as int) =~= s.subrange(
            s.len() - trim_start(s).len(),
            s.len() as int,
        ));
    } else {
        assert(s.subrange(0, s.len() as int) =~= s);
    }
}

/// Trimming the end cuts off a whitespace suffix and leaves a part that is
/// empty or ends with a non-whitespace character.
proof fn lemma_trim_end_shape(s: Seq<char>)
    ensures
        trim_end(s).len() <= s.len(),
        trim_end(s) == s.subrange(0, trim_end(s).len() as int),
        forall|k: int| trim_end(s).len() <= k < s.len() ==> is_white_space(#[trigger] s[k]),
        trim_end(s).len() > 0 ==> !is_white_space(trim_end(s).last()),
    decreases s.len(),
{
    if s.len() > 0 && is_white_space(s.last()) {
        let t = s.drop_last();
        lemma_trim_end_shape(t);
        assert forall|k: int| trim_end(s).len() <= k < s.len() implies is_white_space(
            #[trigger] s[k],
        ) by {
            if k < s.len() - 1 {
                assert(s[k] == t[k]);
            }
        }
        assert(t.subrange(0, trim_end(t).len() as int) =~= s.subrange(
            0,
            trim_end(s).len() as int,
        ));
    } else {
        assert(s.subrange(0, s.len() as int) =~= s);
    }
}

/// Among ASCII characters, exactly the space and the controls U+0009 (tab)
/// to U+000D (carriage return) are whitespace; in particular no ASCII letter,
/// digit or punctuation is.
pub proof fn lemma_white_space_ascii(c: char)
    ensures
        (c as u32) < 128 ==> (is_white_space(c) <==> (c == ' ' || ('\t' <= c && c <= '\r'))),
        ('A' <= c && c <= 'Z') || ('a' <= c && c <= 'z') || ('0' <= c && c <= '9') ==> !is_white_space(c),
        c == '\t' || c == '\n' || c == '\r' || c == ' ' ==> is_white_space(c),
{
}

/// The whitespace characters beyond ASCII are exactly U+0085, U+00A0,
/// U+1680, U+2000..=U+200A, U+2028, U+2029, U+202F, U+205F and U+3000; a
/// character from none of these ranges, such as U+180E, is not whitespace.
pub proof fn lemma_white_space_beyond_ascii(c: char)
    ensures
        (c as u32) >= 128 ==> (is_white_space(c) <==> ((c as u32) == 0x85 || (c as u32) == 0xa0
            || (c as u32) == 0x1680 || (0x2000 <= (c as u32) && (c as u32) <= 0x200a) || (c as u32)
            == 0x2028 || (c as u32) == 0x2029 || (c as u32) == 0x202f || (c as u32) == 0x205f
            || (c as u32) == 0x3000)),
        (c as u32) == 0x180e ==> !is_white_space(c),
{
}

/// Whitespace-only padding on either side of a string is trimmed off, and
/// nothing more: where `v` neither starts nor ends with whitespace, trimming
/// `pre + v + post` gives `v` for any whitespace `pre` and `post`.
pub proof fn lemma_trim_padded(pre: Seq<char>, v: Seq<char>, post: Seq<char>)
    requires
        forall|k: int| 0 <= k < pre.len() ==> is_white_space(#[trigger] pre[k]),
        forall|k: int| 0 <= k < post.len() ==> is_white_space(#[trigger] post[k]),
        v.len() > 0,
        !is_white_space(v[0]),
        !is_white_space(v.last()),
    ensures
        trim(pre + v + post) == v,
{
    let s = pre + v + post;
    assert forall|k: int| 0 <= k < pre.len() implies is_white_space(#[trigger] s[k]) by {
        assert(s[k] == pre[k]);
    }
    assert(s[pre.len() as int] == v[0]);
    lemma_trim_start_at(s, pre.len() as int);
    let t = s.subrange(pre.len() as int, s.len() as int);
    assert(t =~= v + post);
    assert forall|k: int| v.len() <= k < t.len() implies is_white_space(#[trigger] t[k]) by {
        assert(t[k] == post[k - v.len()]);
    }
    assert(t[v.len() - 1] == v.last());
    lemma_trim_end_at(t, v.len() as int);
    assert(t.subrange(0, v.len() as int) =~= v);
}

/// Trimming keeps a string whose first and last characters are ASCII letters
/// or digits as it is: trimming never removes such a character.
pub proof fn lemma_trim_keeps_alphanumeric_ends(v: Seq<char>)
    requires
        v.len() > 0,
        ('A' <= v[0] && v[0] <= 'Z') || ('a' <= v[0] && v[0] <= 'z') || ('0' <= v[0] && v[0]
            <= '9'),
        ('A' <= v.last() && v.last() <= 'Z') || ('a' <= v.last() && v.last() <= 'z') || ('0'
            <= v.last() && v.last() <= '9'),
    ensures
        trim(v) == v,
{
    lemma_white_space_ascii(v[0]);
    lemma_white_space_ascii(v.last());
    lemma_trim_padded(Seq::empty(), v, Seq::empty());
    assert(Seq::<char>::empty() + v + Seq::<char>::empty() =~= v);
}

/// ASCII lowercasing moves exactly the letters `A`..=`Z` (U+0041..=U+005A)
/// up by 32 code points and leaves every other character unchanged;
/// ASCII uppercasing moves exactly `a`..=`z` down by 32.
pub proof fn lemma_ascii_case_chars(c: char)
    ensures
        (ascii_lower_char(c) as u32) == if 0x41 <= (c as u32) && (c as u32) <= 0x5a {
            (c as u32) + 32
        } else {
            (c as u32) as int
        },
        (ascii_upper_char(c) as u32) == if 0x61 <= (c as u32) && (c as u32) <= 0x7a {
            (c as u32) - 32
        } else {
            (c as u32) as int
        },
{
    if 'A' <= c && c <= 'Z' {
        assert(((c as u32) + 32) as char as u32 == (c as u32) + 32);
    }
    if 'a' <= c && c <= 'z' {
        assert(((c as u32) - 32) as char as u32 == (c as u32) - 32);
    }
}

/// The views of a vector of strings are the strings' characters, one for one
/// and in order.
pub proof fn lemma_string_views(v: Seq<String>)
    ensures
        string_views(v).len() == v.len(),
        forall|i: int| 0 <= i < v.len() ==> #[trigger] string_views(v)[i] == v[i]@,
{
}

/// A string is ASCII text exactly where every character is below U+0080.
pub proof fn lemma_ascii_text_exactly(s: Seq<char>)
    ensures
        is_ascii_text(s) <==> forall|i: int| 0 <= i < s.len() ==> (#[trigger] s[i] as u32) <= 0x7f,
{
}

/// The copy of `s` without leading and trailing whitespace, as `str::trim`
/// gives it.
pub fn trim_string(s: &str) -> (r: String)
    ensures
        r@ == trim(s@),
{
    let v = chars_of(s);
    let n = v.len();
    let mut i: usize = 0;
    while i < n && is_whitespace(v[i])
        invariant
            i <= n == v@.len(),
            forall|k: int| 0 <= k < i ==> is_white_space(#[trigger] v@[k]),
        decreases n - i,
    {
        i = i + 1;
    }
    proof {
        lemma_trim_start_at(v@, i as int);
    }
    let mut j: usize = n;
    while j > i && is_whitespace(v[j - 1])
        invariant
            i <= j <= n == v@.len(),
            forall|k: int| j <= k < n ==> is_white_space(#[trigger] v@[k]),
        decreases j,
    {
        j = j - 1;
    }
    proof {
        let t = v@.subrange(i as int, n as int);
        assert forall|k: int| j - i <= k < t.len() implies is_white_space(#[trigger] t[k]) by {
            assert(t[k] == v@[k + i]);
        }
        lemma_trim_end_at(t, j - i);
        assert(t.subrange(0, j - i) =~= v@.subrange(i as int, j as int));
    }
    string_from_chars(&v, i, j)
}


// ---------------------------------------------------------------------------
// Splitting on commas
// ---------------------------------------------------------------------------

/// The pieces of `s` between commas, as `str::split(',')` yields them: one
/// more piece than `s` has commas, empty pieces included.
pub open spec fn comma_pieces(s: Seq<char>) -> Seq<Seq<char>>
    decreases s.len(),
{
    if s.len() == 0 {
        seq![Seq::<char>::empty()]
    } else {
        let init = comma_pieces(s.drop_last());
        if s.last() == ',' {
            init.push(Seq::<char>::empty())
        } else {
            init.update(init.len() - 1, init.last().push(s.last()))
        }
    }
}

/// The pieces joined back together, with a comma between each two.
pub open spec fn join_with_commas(pieces: Seq<Seq<char>>) -> Seq<char>
    decreases pieces.len(),
{
    if pieces.len() <= 1 {
        if pieces.len() == 1 {
            pieces[0]
        } else {
            Seq::<char>::empty()
        }
    } else {
        join_with_commas(pieces.drop_last()) + seq![','] + pieces.last()
    }
}

/// There is always at least one piece.
pub proof fn lemma_comma_pieces_nonempty(s: Seq<char>)
    ensures
        comma_pieces(s).len() >= 1,
    decreases s.len(),
{
    if s.len() > 0 {
        lemma_comma_pieces_nonempty(s.drop_last());
    }
}

/// Splitting on commas loses nothing and keeps no comma: no piece holds a
/// comma, and the pieces joined with commas give `s` back.
pub proof fn lemma_comma_pieces_partition(s: Seq<char>)
    ensures
        forall|i: int| 0 <= i < comma_pieces(s).len() ==> !(#[trigger] comma_pieces(s)[i]).contains(','),
        join_with_commas(comma_pieces(s)) == s,
    decreases s.len(),
{
    lemma_comma_pieces_nonempty(s);
    if s.len() == 0 {
        assert(comma_pieces(s)[0] =~= Seq::<char>::empty());
    } else {
        let init = comma_pieces(s.drop_last());
        lemma_comma_pieces_partition(s.drop_last());
        lemma_comma_pieces_nonempty(s.drop_last());
        let ps = comma_pieces(s);
        if s.last() == ',' {
            assert(ps.drop_last() =~= init);
            assert forall|i: int| 0 <= i < ps.len() implies !(#[trigger] ps[i]).contains(',') by {
                if i < init.len() {
                    assert(ps[i] == init[i]);
                } else {
                    assert(ps[i] =~= Seq::<char>::empty());
                }
            }
            assert(join_with_commas(ps) =~= join_with_commas(init) + seq![','] + Seq::<char>::empty());
            assert(s =~= s.drop_last() + seq![',']);
        } else {
            let last = init.last().push(s.last());
            assert forall|i: int| 0 <= i < ps.len() implies !(#[trigger] ps[i]).contains(',') by {
                if i < init.len() - 1 {
                    assert(ps[i] == init[i]);
                } else {
                    assert(ps[i] == last);
                    assert(!init[init.len() - 1].contains(','));
                    if last.contains(',') {
                        let k = choose|k: int| 0 <= k < last.len() && last[k] == ',';
                        if k < last.len() - 1 {
                            assert(init.last()[k] == ',');
                        }
                    }
                }
            }
            if init.len() == 1 {
                assert(join_with_commas(init) == init[0]);
                assert(join_with_commas(ps) == ps[0]);
                assert(s =~= s.drop_last().push(s.last()));
            } else {
                assert(ps.drop_last() =~= init.drop_last());
                assert(join_with_commas(init) == join_with_commas(init.drop_last()) + seq![','] + init.last());
                assert(join_with_commas(ps) == join_with_commas(init.drop_last()) + seq![','] + last);
                assert(join_with_commas(ps) =~= join_with_commas(init).push(s.last()));
                assert(s =~= s.drop_last().push(s.last()));
            }
        }
    }
}

/// Splitting `a`, a comma, then `b` gives the pieces of `a` followed by the
/// pieces of `b`.
pub proof fn lemma_comma_pieces_concat(a: Seq<char>, b: Seq<char>)
    ensures
        comma_pieces(a + seq![','] + b) == comma_pieces(a) + comma_pieces(b),
    decreases b.len(),
{
    let s = a + seq![','] + b;
    if b.len() == 0 {
        assert(s.drop_last() =~= a);
        assert(comma_pieces(b) =~= seq![Seq::<char>::empty()]);
        assert(comma_pieces(s) =~= comma_pieces(a) + comma_pieces(b));
    } else {
        assert(s.drop_last() =~= a + seq![','] + b.drop_last());
        lemma_comma_pieces_concat(a, b.drop_last());
        lemma_comma_pieces_nonempty(b.drop_last());
        let pa = comma_pieces(a);
        let q = comma_pieces(b.drop_last());
        assert(s.last() == b.last());
        if b.last() == ',' {
            assert(comma_pieces(s) =~= pa + comma_pieces(b));
        } else {
            let init = pa + q;
            assert(init.last() == q.last());
            assert(init.update(init.len() - 1, init.last().push(s.last())) =~= pa + q.update(
                q.len() - 1,
                q.last().push(b.last()),
            ));
        }
    }
}

/// The pieces of an ASCII string are ASCII.
pub proof fn lemma_comma_pieces_ascii(s: Seq<char>)
    requires
        is_ascii_text(s),
    ensures
        forall|i: int| 0 <= i < comma_pieces(s).len() ==> is_ascii_text(#[trigger] comma_pieces(s)[i]),
    decreases s.len(),
{
    if s.len() > 0 {
        let t = s.drop_last();
        assert forall|k: int| 0 <= k < t.len() implies (#[trigger] t[k] as u32) < 128 by {
            assert(t[k] == s[k]);
        }
        lemma_comma_pieces_ascii(t);
        lemma_comma_pieces_nonempty(t);
        let init = comma_pieces(t);
        if s.last() != ',' {
            let last = init.last().push(s.last());
            assert(is_ascii_text(init[init.len() - 1]));
            assert((s[s.len() - 1] as u32) < 128);
            assert forall|k: int| 0 <= k < last.len() implies (#[trigger] last[k] as u32) < 128 by {
                if k < last.len() - 1 {
                    assert(last[k] == init.last()[k]);
                }
            }
            assert forall|i: int| 0 <= i < comma_pieces(s).len() implies is_ascii_text(
                #[trigger] comma_pieces(s)[i],
            ) by {
                if i < init.len() - 1 {
                    assert(comma_pieces(s)[i] == init[i]);
                }
            }
        } else {
            assert forall|i: int| 0 <= i < comma_pieces(s).len() implies is_ascii_text(
                #[trigger] comma_pieces(s)[i],
            ) by {
                if i < init.len() {
                    assert(comma_pieces(s)[i] == init[i]);
                }
            }
        }
    }
}

/// Trimming an ASCII string leaves an ASCII string.
pub proof fn lemma_trim_ascii(s: Seq<char>)
    requires
        is_ascii_text(s),
    ensures
        is_ascii_text(trim(s)),
{
    lemma_trim_shape(s);
    let (i, j) = choose|i: int, j: int|
        0 <= i <= j <= s.len() && trim(s) == s.subrange(i, j) && (forall|k: int|
            0 <= k < i ==> is_white_space(#[trigger] s[k])) && (forall|k: int|
            j <= k < s.len() ==> is_white_space(#[trigger] s[k]));
    assert forall|k: int| 0 <= k < trim(s).len() implies (#[trigger] trim(s)[k] as u32) < 128 by {
        assert(trim(s)[k] == s[i + k]);
    }
}

/// A string without commas is a single piece.
pub proof fn lemma_comma_pieces_single(s: Seq<char>)
    requires
        !s.contains(','),
    ensures
        comma_pieces(s) == seq![s],
    decreases s.len(),
{
    if s.len() > 0 {
        let t = s.drop_last();
        assert(!t.contains(',')) by {
            if t.contains(',') {
                let k = choose|k: int| 0 <= k < t.len() && t[k] == ',';
                assert(s[k] == ',');
            }
        }
        lemma_comma_pieces_single(t);
        assert(s[s.len() - 1] != ',');
        assert(t.push(s.last()) =~= s);
        assert(comma_pieces(s) =~= seq![s]);
    } else {
        assert(s =~= Seq::<char>::empty());
    }
}

/// Joining comma-free pieces with commas and splitting again gives the
/// pieces back.
pub proof fn lemma_comma_pieces_of_join(pieces: Seq<Seq<char>>)
    requires
        pieces.len() >= 1,
        forall|i: int| 0 <= i < pieces.len() ==> !(#[trigger] pieces[i]).contains(','),
    ensures
        comma_pieces(join_with_commas(pieces)) == pieces,
    decreases pieces.len(),
{
    if pieces.len() == 1 {
        lemma_comma_pieces_single(pieces[0]);
        assert(seq![pieces[0]] =~= pieces);
    } else {
        let init = pieces.drop_last();
        assert forall|i: int| 0 <= i < init.len() implies !(#[trigger] init[i]).contains(',') by {
            assert(init[i] == pieces[i]);
        }
        lemma_comma_pieces_of_join(init);
        lemma_comma_pieces_concat(join_with_commas(init), pieces.last());
        lemma_comma_pieces_single(pieces.last());
        assert(init + seq![pieces.last()] =~= pieces);
    }
}

/// ASCII-uppercasing twice is uppercasing once.
pub proof fn lemma_ascii_upper_idempotent(s: Seq<char>)
    ensures
        ascii_upper(ascii_upper(s)) == ascii_upper(s),
{
    assert forall|i: int| 0 <= i < s.len() implies #[trigger] ascii_upper_char(
        ascii_upper_char(s[i]),
    ) == ascii_upper_char(s[i]) by {
        let c = s[i];
        if 'a' <= c && c <= 'z' {
            assert(((c as u32) - 32) as char as u32 == (c as u32) - 32);
        }
    }
    assert(ascii_upper(ascii_upper(s)) =~= ascii_upper(s));
}

/// ASCII-uppercasing keeps commas where they are and adds none, and turns no
/// character into whitespace or out of it.
pub proof fn lemma_ascii_upper_char_facts(c: char)
    ensures
        (ascii_upper_char(c) == ',') == (c == ','),
        is_white_space(ascii_upper_char(c)) == is_white_space(c),
        (c as u32) < 128 ==> (ascii_upper_char(c) as u32) < 128,
{
    if 'a' <= c && c <= 'z' {
        assert(((c as u32) - 32) as char as u32 == (c as u32) - 32);
    }
}

/// The views of a vector of strings.
pub open spec fn string_views(v: Seq<String>) -> Seq<Seq<char>> {
    v.map_values(|x: String| x@)
}

/// The pieces of `s` between commas, as `str::split(',')` yields them.
pub fn split_commas(s: &str) -> (r: Vec<String>)
    ensures
        string_views(r@) == comma_pieces(s@),
{
    let v = chars_of(s);
    let mut done: Vec<String> = Vec::new();
    let mut cur = String::new();
    let mut i: usize = 0;
    while i < v.len()
        invariant
            i <= v@.len(),
            v@ == s@,
            string_views(done@).push(cur@) == comma_pieces(v@.take(i as int)),
        decreases v@.len() - i,
    {
        let c = v[i];
        let ghost before = string_views(done@).push(cur@);
        assert(v@.take(i + 1).drop_last() =~= v@.take(i as int));
        if c == ',' {
            done.push(cur);
            cur = String::new();
            assert(string_views(done@).push(cur@) =~= before.push(Seq::<char>::empty()));
        } else {
            push_char(&mut cur, c);
            assert(string_views(done@).push(cur@) =~= before.update(
                before.len() - 1,
                before.last().push(c),
            ));
        }
        i = i + 1;
    }
    assert(v@.take(v@.len() as int) =~= v@);
    done.push(cur);
    done
}

} // verus!
