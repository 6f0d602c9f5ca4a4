//! Country screening for card payments.
//!
//! `Screening` validates whether a transaction's country is allowed. The
//! default implementation, `AllowAllScreening`, permits every country
//! unless it is on the configured denylist.

use vstd::prelude::*;
use vstd::string::StringExecFns;

use crate::card::{flag_value_enabled, is_card_enabled};
use crate::text::{
    ascii_lower, ascii_upper, comma_pieces, is_ascii_text, lemma_ascii_upper_of_lower,
    is_white_space, join_with_commas, lemma_ascii_upper_char_facts, lemma_ascii_upper_idempotent,
    lemma_comma_pieces_ascii, lemma_comma_pieces_concat, lemma_comma_pieces_of_join,
    lemma_comma_pieces_single,
    lemma_comma_pieces_partition, lemma_trim_ascii, lemma_trim_shape, trim_end, trim_start,
    spec_to_uppercase, split_commas, string_views, to_uppercase, trim, trim_string,
};

verus! {

/// Errors of screening operations.
#[derive(Debug, Clone, PartialEq, Eq)]
pub enum ScreeningError {
    /// The country, in uppercase, is on the denylist.
    CountryBlocked(String),
    /// The screening service could not be reached.
    Unavailable,
}

/// Result type of screening operations.
pub type ScreeningResult<T> = Result<T, ScreeningError>;

impl ScreeningError {
    /// The human-readable text of the error.
    pub open spec fn spec_message(&self) -> Seq<char> {
        match self {
            ScreeningError::CountryBlocked(code) => "Country "@ + code@ + " is blocked"@,
            ScreeningError::Unavailable => "Screening service unavailable"@,
        }
    }

    /// The human-readable text of the error: `Country <code> is blocked`
    /// or `Screening service unavailable`.
    pub fn message(&self) -> (r: String)
        ensures
            r@ == self.spec_message(),
    {
        match self {
            ScreeningError::CountryBlocked(code) => {
                let mut r = String::from_str("Country ");
                r.append(code.as_str());
                r.append(" is blocked");
                r
            },
            ScreeningError::Unavailable => String::from_str("Screening service unavailable"),
        }
    }
}

/// Country screening.
///
/// Implementations should be stateless: checking a country never changes
/// the screening.
pub trait Screening: Send + Sync {
    /// `Ok(())` where the country code is allowed, an error otherwise
    /// (`ScreeningError::CountryBlocked` where it is on a denylist).
    fn check_country(&self, country_code: &str) -> ScreeningResult<()>;

    /// The name of this screening implementation.
    fn name(&self) -> (r: &'static str)
        default_ensures
            r@ == "Screening"@,
    {
        "Screening"
    }
}

// ---------------------------------------------------------------------------
// Parsing a denylist
// ---------------------------------------------------------------------------

/// A denylist entry made of one comma-separated piece: trimmed and uppercased.
pub open spec fn denylist_entry(piece: Seq<char>) -> Seq<char> {
    spec_to_uppercase(trim(piece))
}

/// The denylist written as comma-separated country codes: each piece trimmed
/// and uppercased, empty entries left out, order kept.
pub open spec fn denylist_entries(value: Seq<char>) -> Seq<Seq<char>> {
    comma_pieces(value).map_values(|p: Seq<char>| denylist_entry(p)).filter(
        |e: Seq<char>| e.len() > 0,
    )
}

/// The denylist given by an optional comma-separated value: empty where
/// there is none.
pub open spec fn optional_denylist_entries(value: Option<String>) -> Seq<Seq<char>> {
    match value {
        Some(v) => denylist_entries(v@),
        None => Seq::empty(),
    }
}

/// The denylist written as comma-separated ASCII country codes: each piece
/// trimmed and ASCII-uppercased, empty entries left out, order kept. For an
/// ASCII value this is what `parse_denylist` gives.
pub open spec fn ascii_denylist_entries(value: Seq<char>) -> Seq<Seq<char>> {
    comma_pieces(value).map_values(|p: Seq<char>| ascii_upper(trim(p))).filter(
        |e: Seq<char>| e.len() > 0,
    )
}

/// Parses a comma-separated denylist such as `"NG, IR,  KP  "`: each entry
/// is trimmed and uppercased, and empty entries are dropped.
pub fn parse_denylist(value: &str) -> (r: Vec<String>)
    ensures
        string_views(r@) == denylist_entries(value@),
        (forall|k: int|
            0 <= k < comma_pieces(value@).len() ==> #[trigger] trim(comma_pieces(value@)[k]).len()
                == 0) ==> r@.len() == 0,
        is_ascii_text(value@) ==> string_views(r@) == ascii_denylist_entries(value@),
{
    let pieces = split_commas(value);
    let ghost ps = comma_pieces(value@);
    let ghost f = |p: Seq<char>| denylist_entry(p);
    let ghost keep = |e: Seq<char>| e.len() > 0;
    let ghost g = |p: Seq<char>| ascii_upper(trim(p));
    proof {
        if is_ascii_text(value@) {
            lemma_comma_pieces_ascii(value@);
        }
    }
    let mut r: Vec<String> = Vec::new();
    let mut i: usize = 0;
    while i < pieces.len()
        invariant
            i <= pieces@.len(),
            string_views(pieces@) == ps,
            ps == comma_pieces(value@),
            f == (|p: Seq<char>| denylist_entry(p)),
            keep == (|e: Seq<char>| e.len() > 0),
            string_views(r@) == ps.take(i as int).map_values(f).filter(keep),
            (forall|k: int| 0 <= k < i ==> #[trigger] trim(ps[k]).len() == 0) ==> r@.len() == 0,
            g == (|p: Seq<char>| ascii_upper(trim(p))),
            is_ascii_text(value@) ==> forall|k: int|
                0 <= k < ps.len() ==> is_ascii_text(#[trigger] ps[k]),
            is_ascii_text(value@) ==> string_views(r@) == ps.take(i as int).map_values(g).filter(
                keep,
            ),
        decreases pieces@.len() - i,
    {
        let t = trim_string(pieces[i].as_str());
        let u = to_uppercase(t.as_str());
        assert(string_views(pieces@)[i as int] == pieces@[i as int]@);
        assert(u@ == f(ps[i as int]));
        let ghost prev = string_views(r@);
        let ghost mapped = ps.take(i + 1).map_values(f);
        assert(mapped =~= ps.take(i as int).map_values(f).push(f(ps[i as int])));
        assert(mapped.drop_last() =~= ps.take(i as int).map_values(f));
        assert(mapped.last() == f(ps[i as int]));
        assert(mapped.filter(keep) == (if keep(mapped.last()) {
            mapped.drop_last().filter(keep).push(mapped.last())
        } else {
            mapped.drop_last().filter(keep)
        })) by {
            reveal(Seq::filter);
        }
        let ghost amapped = ps.take(i + 1).map_values(g);
        proof {
            if is_ascii_text(value@) {
                assert(is_ascii_text(ps[i as int]));
                lemma_trim_ascii(ps[i as int]);
                assert(u@ == g(ps[i as int]));
            }
        }
        assert(amapped =~= ps.take(i as int).map_values(g).push(g(ps[i as int])));
        assert(amapped.drop_last() =~= ps.take(i as int).map_values(g));
        assert(amapped.filter(keep) == (if keep(amapped.last()) {
            amapped.drop_last().filter(keep).push(amapped.last())
        } else {
            amapped.drop_last().filter(keep)
        })) by {
            reveal(Seq::filter);
        }
        let n = u.as_str().is_empty();
        if !n {
            r.push(u);
            assert(string_views(r@) =~= prev.push(f(ps[i as int])));
        }
        i = i + 1;
    }
    assert(ps.take(pieces@.len() as int) =~= ps);
    r
}

/// The entries of a denylist, each uppercased.
pub open spec fn uppercased(entries: Seq<Seq<char>>) -> Seq<Seq<char>> {
    entries.map_values(|e: Seq<char>| spec_to_uppercase(e))
}

/// Whether some string of `list`, uppercased, has the characters of `upper`.
fn contains_uppercased(list: &Vec<String>, upper: &String) -> (r: bool)
    ensures
        r == uppercased(string_views(list@)).contains(upper@),
{
    let ghost u = uppercased(string_views(list@));
    let mut i: usize = 0;
    while i < list.len()
        invariant
            i <= list@.len(),
            u == uppercased(string_views(list@)),
            forall|k: int| 0 <= k < i ==> u[k] != upper@,
        decreases list@.len() - i,
    {
        let e = to_uppercase(list[i].as_str());
        assert(u[i as int] == spec_to_uppercase(list@[i as int]@));
        if e == *upper {
            return true;
        }
        i = i + 1;
    }
    false
}

// ---------------------------------------------------------------------------
// AllowAllScreening
// ---------------------------------------------------------------------------

/// Screening that allows every country except those on its denylist.
#[derive(Debug, Clone)]
pub struct AllowAllScreening {
    /// The blocked country codes, compared against uppercased codes.
    pub denylist: Vec<String>,
}

impl AllowAllScreening {
    /// Whether this screening blocks the country code `code`: its uppercase
    /// form is the uppercase form of a denylist entry.
    pub open spec fn blocks(&self, code: Seq<char>) -> bool {
        uppercased(string_views(self.denylist@)).contains(spec_to_uppercase(code))
    }

    /// How an ASCII country code `code` is screened: blocked where its ASCII
    /// uppercase form is the uppercase form of a denylist entry.
    pub open spec fn blocks_ascii(&self, code: Seq<char>) -> bool {
        uppercased(string_views(self.denylist@)).contains(ascii_upper(code))
    }

    /// A screening with the given denylist.
    pub fn new(denylist: Vec<String>) -> (r: Self)
        ensures
            r.denylist@ == denylist@,
    {
        AllowAllScreening { denylist }
    }

    /// A screening whose denylist is the comma-separated value `denylist_env`
    /// (each entry trimmed and uppercased, empty entries dropped), or empty
    /// where there is no value.
    pub fn from_env(denylist_env: Option<String>) -> (r: Self)
        ensures
            string_views(r.denylist@) == optional_denylist_entries(denylist_env),
            (denylist_env matches Some(v) ==> forall|k: int|
                0 <= k < comma_pieces(v@).len() ==> #[trigger] trim(comma_pieces(v@)[k]).len()
                    == 0) ==> r.denylist@.len() == 0,
            denylist_env matches Some(v) ==> (is_ascii_text(v@) ==> string_views(r.denylist@)
                == ascii_denylist_entries(v@)),
    {
        let denylist = match denylist_env {
            Some(v) => parse_denylist(v.as_str()),
            None => {
                let empty: Vec<String> = Vec::new();
                assert(string_views(empty@) =~= Seq::<Seq<char>>::empty());
                empty
            },
        };
        AllowAllScreening { denylist }
    }
}

impl Screening for AllowAllScreening {
    /// Blocks a country whose uppercased code is an uppercased denylist
    /// entry, with that uppercased code in the error; allows every other
    /// country. An ASCII code is compared by its ASCII uppercase form.
    fn check_country(&self, country_code: &str) -> (r: ScreeningResult<()>)
        ensures
            match r {
                Ok(()) => !self.blocks(country_code@),
                Err(e) => self.blocks(country_code@) && (e matches ScreeningError::CountryBlocked(
                    c,
                ) && c@ == spec_to_uppercase(country_code@)),
            },
            is_ascii_text(country_code@) ==> (r is Err <==> self.blocks_ascii(country_code@)),
            is_ascii_text(country_code@) ==> (r matches Err(ScreeningError::CountryBlocked(c))
                ==> c@ == ascii_upper(country_code@)),
    {
        let upper_code = to_uppercase(country_code);
        if contains_uppercased(&self.denylist, &upper_code) {
            Err(ScreeningError::CountryBlocked(upper_code))
        } else {
            Ok(())
        }
    }

    fn name(&self) -> (r: &'static str)
        ensures
            r@ == "AllowAllScreening"@,
    {
        "AllowAllScreening"
    }
}

// ---------------------------------------------------------------------------
// NoOpScreening
// ---------------------------------------------------------------------------

/// Screening that allows every country (used when the card flag is off).
#[derive(Debug, Clone)]
pub struct NoOpScreening;

impl Screening for NoOpScreening {
    /// Allows every country.
    fn check_country(&self, country_code: &str) -> (r: ScreeningResult<()>)
        ensures
            r is Ok,
    {
        Ok(())
    }

    fn name(&self) -> (r: &'static str)
        ensures
            r@ == "NoOpScreening"@,
    {
        "NoOpScreening"
    }
}


// ---------------------------------------------------------------------------
// The configured screening
// ---------------------------------------------------------------------------

/// The screening chosen by configuration: the denylist screening where the
/// card feature is on, the no-op screening where it is off.
#[derive(Debug, Clone)]
pub enum ConfiguredScreening {
    /// Screening against a denylist.
    AllowAll(AllowAllScreening),
    /// Screening that allows everything.
    NoOp(NoOpScreening),
}

impl ConfiguredScreening {
    /// Whether this screening blocks the country code `code`.
    pub open spec fn blocks(&self, code: Seq<char>) -> bool {
        match self {
            ConfiguredScreening::AllowAll(a) => a.blocks(code),
            ConfiguredScreening::NoOp(_) => false,
        }
    }

    /// How this screening treats an ASCII country code.
    pub open spec fn blocks_ascii(&self, code: Seq<char>) -> bool {
        match self {
            ConfiguredScreening::AllowAll(a) => a.blocks_ascii(code),
            ConfiguredScreening::NoOp(_) => false,
        }
    }

    /// The name of the chosen implementation.
    pub open spec fn spec_name(&self) -> Seq<char> {
        match self {
            ConfiguredScreening::AllowAll(_) => "AllowAllScreening"@,
            ConfiguredScreening::NoOp(_) => "NoOpScreening"@,
        }
    }
}

impl Screening for ConfiguredScreening {
    /// Checks the country with the chosen implementation.
    fn check_country(&self, country_code: &str) -> (r: ScreeningResult<()>)
        ensures
            match r {
                Ok(()) => !self.blocks(country_code@),
                Err(e) => self.blocks(country_code@) && (e matches ScreeningError::CountryBlocked(
                    c,
                ) && c@ == spec_to_uppercase(country_code@)),
            },
            is_ascii_text(country_code@) ==> (r is Err <==> self.blocks_ascii(country_code@)),
    {
        match self {
            ConfiguredScreening::AllowAll(a) => a.check_country(country_code),
            ConfiguredScreening::NoOp(n) => n.check_country(country_code),
        }
    }

    fn name(&self) -> (r: &'static str)
        ensures
            r@ == self.spec_name(),
    {
        match self {
            ConfiguredScreening::AllowAll(a) => a.name(),
            ConfiguredScreening::NoOp(n) => n.name(),
        }
    }
}

/// The default screening for the given configuration: `card_enabled_env` is
/// the value of `CARD_ENABLED` and `denylist_env` that of
/// `CARD_COUNTRY_DENYLIST` (`None` where unset). Where the card flag is on,
/// the denylist screening over the parsed denylist; otherwise the no-op
/// screening.
pub fn create_screening(card_enabled_env: Option<String>, denylist_env: Option<String>) -> (r:
    ConfiguredScreening)
    ensures
        match r {
            ConfiguredScreening::AllowAll(a) => {
                &&& card_enabled_env matches Some(v) && flag_value_enabled(v@)
                &&& string_views(a.denylist@) == optional_denylist_entries(denylist_env)
            },
            ConfiguredScreening::NoOp(_) => !(card_enabled_env matches Some(v) && flag_value_enabled(
                v@,
            )),
        },
        forall|code: Seq<char>|
            #[trigger] r.blocks(code) <==> (card_enabled_env matches Some(v) && flag_value_enabled(
                v@,
            )) && uppercased(optional_denylist_entries(denylist_env)).contains(
                spec_to_uppercase(code),
            ),
{
    if is_card_enabled(card_enabled_env) {
        ConfiguredScreening::AllowAll(AllowAllScreening::from_env(denylist_env))
    } else {
        ConfiguredScreening::NoOp(NoOpScreening)
    }
}


// ---------------------------------------------------------------------------
// Laws
// ---------------------------------------------------------------------------

/// Every entry of a parsed denylist is non-empty.
pub proof fn lemma_denylist_entries_nonempty(value: Seq<char>)
    ensures
        forall|i: int|
            0 <= i < denylist_entries(value).len() ==> (#[trigger] denylist_entries(value)[i]).len()
                > 0,
{
    let keep = |e: Seq<char>| e.len() > 0;
    let mapped = comma_pieces(value).map_values(|p: Seq<char>| denylist_entry(p));
    assert forall|i: int| 0 <= i < mapped.filter(keep).len() implies keep(
        #[trigger] mapped.filter(keep)[i],
    ) by {
        mapped.lemma_filter_pred(keep, i);
    }
}

/// Parsing `a`, a comma, then `b` gives the entries of `a` followed by the
/// entries of `b` (so `from_env` of `"a,b"` is `from_env` of `a` followed by
/// `from_env` of `b`).
pub proof fn lemma_denylist_entries_concat(a: Seq<char>, b: Seq<char>)
    ensures
        denylist_entries(a + seq![','] + b) == denylist_entries(a) + denylist_entries(b),
        ascii_denylist_entries(a + seq![','] + b) == ascii_denylist_entries(a)
            + ascii_denylist_entries(b),
{
    lemma_comma_pieces_concat(a, b);
    let pa = comma_pieces(a);
    let pb = comma_pieces(b);
    let f = |p: Seq<char>| denylist_entry(p);
    let g = |p: Seq<char>| ascii_upper(trim(p));
    let keep = |e: Seq<char>| e.len() > 0;
    assert((pa + pb).map_values(f) =~= pa.map_values(f) + pb.map_values(f));
    assert((pa + pb).map_values(g) =~= pa.map_values(g) + pb.map_values(g));
    Seq::filter_distributes_over_add(pa.map_values(f), pb.map_values(f), keep);
    Seq::filter_distributes_over_add(pa.map_values(g), pb.map_values(g), keep);
}

/// An entry that parsing leaves as it is: non-empty, without commas, not
/// starting or ending with whitespace, and already in ASCII uppercase.
pub open spec fn is_settled_entry(e: Seq<char>) -> bool {
    &&& e.len() > 0
    &&& !e.contains(',')
    &&& !is_white_space(e[0])
    &&& !is_white_space(e.last())
    &&& ascii_upper(e) == e
}

/// A settled entry is its own ASCII denylist entry.
proof fn lemma_settled_entry_fixed(e: Seq<char>)
    requires
        is_settled_entry(e),
    ensures
        ascii_upper(trim(e)) == e,
{
    assert(trim_start(e) == e);
    assert(trim_end(e) == e);
}

/// A non-empty entry parsed from a comma-free piece is settled, and ASCII
/// where the piece is.
proof fn lemma_parsed_entry_settled(p: Seq<char>)
    requires
        !p.contains(','),
        ascii_upper(trim(p)).len() > 0,
    ensures
        is_settled_entry(ascii_upper(trim(p))),
        is_ascii_text(p) ==> is_ascii_text(ascii_upper(trim(p))),
{
    let t = trim(p);
    let x = ascii_upper(t);
    lemma_trim_shape(p);
    let (i, j) = choose|i: int, j: int|
        0 <= i <= j <= p.len() && trim(p) == p.subrange(i, j) && (forall|k: int|
            0 <= k < i ==> is_white_space(#[trigger] p[k])) && (forall|k: int|
            j <= k < p.len() ==> is_white_space(#[trigger] p[k]));
    assert(!x.contains(',')) by {
        if x.contains(',') {
            let k = choose|k: int| 0 <= k < x.len() && x[k] == ',';
            lemma_ascii_upper_char_facts(t[k]);
            assert(p[i + k] == t[k]);
        }
    }
    lemma_ascii_upper_char_facts(t[0]);
    lemma_ascii_upper_char_facts(t[t.len() - 1]);
    lemma_ascii_upper_idempotent(t);
    if is_ascii_text(p) {
        assert forall|k: int| 0 <= k < x.len() implies (#[trigger] x[k] as u32) < 128 by {
            assert(p[i + k] == t[k]);
            lemma_ascii_upper_char_facts(t[k]);
        }
    }
}

/// What every kept element has, every element of the filtered sequence has.
proof fn lemma_filter_nonempty_keeps(
    s: Seq<Seq<char>>,
    keep: spec_fn(Seq<char>) -> bool,
    good: spec_fn(Seq<char>) -> bool,
)
    requires
        keep == (|e: Seq<char>| e.len() > 0),
        forall|i: int| 0 <= i < s.len() && (#[trigger] s[i]).len() > 0 ==> good(s[i]),
    ensures
        forall|i: int| 0 <= i < s.filter(keep).len() ==> good(#[trigger] s.filter(keep)[i]),
    decreases s.len(),
{
    reveal(Seq::filter);
    if s.len() > 0 {
        let t = s.drop_last();
        assert forall|i: int| 0 <= i < t.len() && (#[trigger] t[i]).len() > 0 implies good(t[i]) by {
            assert(t[i] == s[i]);
        }
        lemma_filter_nonempty_keeps(t, keep, good);
        let ft = t.filter(keep);
        let fs = s.filter(keep);
        assert(fs == (if keep(s.last()) { ft.push(s.last()) } else { ft }));
        assert forall|i: int| 0 <= i < fs.len() implies good(#[trigger] fs[i]) by {
            if i < ft.len() {
                assert(fs[i] == ft[i]);
            } else {
                assert(fs[i] == s[s.len() - 1]);
            }
        }
    }
}

/// Filtering out empty entries keeps a sequence of non-empty entries as it is.
proof fn lemma_filter_nonempty_all_kept(s: Seq<Seq<char>>)
    requires
        forall|i: int| 0 <= i < s.len() ==> (#[trigger] s[i]).len() > 0,
    ensures
        s.filter(|e: Seq<char>| e.len() > 0) == s,
    decreases s.len(),
{
    reveal(Seq::filter);
    if s.len() > 0 {
        let t = s.drop_last();
        assert forall|i: int| 0 <= i < t.len() implies (#[trigger] t[i]).len() > 0 by {
            assert(t[i] == s[i]);
        }
        lemma_filter_nonempty_all_kept(t);
        assert(s.last().len() > 0);
        assert(t.push(s.last()) =~= s);
    }
}

/// Joining ASCII pieces with commas gives ASCII text.
proof fn lemma_join_ascii(pieces: Seq<Seq<char>>)
    requires
        forall|i: int| 0 <= i < pieces.len() ==> is_ascii_text(#[trigger] pieces[i]),
    ensures
        is_ascii_text(join_with_commas(pieces)),
    decreases pieces.len(),
{
    if pieces.len() > 1 {
        let init = pieces.drop_last();
        assert forall|i: int| 0 <= i < init.len() implies is_ascii_text(#[trigger] init[i]) by {
            assert(init[i] == pieces[i]);
        }
        lemma_join_ascii(init);
        let a = join_with_commas(init);
        let l = pieces.last();
        assert(is_ascii_text(l));
        let j = a + seq![','] + l;
        assert forall|k: int| 0 <= k < j.len() implies (#[trigger] j[k] as u32) < 128 by {
            if k < a.len() {
                assert(j[k] == a[k]);
            } else if k > a.len() {
                assert(j[k] == l[k - a.len() - 1]);
            }
        }
    }
}

/// Writing a parsed denylist back as comma-separated text and parsing it
/// again gives the same denylist; for an ASCII value, whose parse is what
/// `from_env` gives, the written text is ASCII too, so `from_env` of the
/// joined entries gives the same entries back.
pub proof fn lemma_ascii_denylist_roundtrip(value: Seq<char>)
    ensures
        ascii_denylist_entries(join_with_commas(ascii_denylist_entries(value)))
            == ascii_denylist_entries(value),
        is_ascii_text(value) ==> is_ascii_text(join_with_commas(ascii_denylist_entries(value))),
{
    let ps = comma_pieces(value);
    let g = |p: Seq<char>| ascii_upper(trim(p));
    let mapped = ps.map_values(g);
    let es = ascii_denylist_entries(value);
    lemma_comma_pieces_partition(value);
    if is_ascii_text(value) {
        lemma_comma_pieces_ascii(value);
    }
    let good = |e: Seq<char>| is_settled_entry(e) && (is_ascii_text(value) ==> is_ascii_text(e));
    assert forall|i: int| 0 <= i < mapped.len() && (#[trigger] mapped[i]).len() > 0 implies good(
        mapped[i],
    ) by {
        lemma_parsed_entry_settled(ps[i]);
    }
    let keep = |e: Seq<char>| e.len() > 0;
    lemma_filter_nonempty_keeps(mapped, keep, good);
    assert(es == mapped.filter(keep));
    assert forall|i: int| 0 <= i < es.len() implies is_settled_entry(#[trigger] es[i]) && (
    is_ascii_text(value) ==> is_ascii_text(es[i])) by {
        assert(good(es[i]));
    }
    if is_ascii_text(value) {
        lemma_join_ascii(es);
    }
    if es.len() == 0 {
        let back = comma_pieces(join_with_commas(es));
        let empty = Seq::<char>::empty();
        assert(join_with_commas(es) == empty);
        assert(back == seq![empty]);
        assert(trim_start(empty) == empty);
        assert(trim_end(empty) == empty);
        assert(ascii_upper(empty) =~= empty);
        assert(g(empty) == empty);
        let m = back.map_values(g);
        assert(m =~= seq![empty]);
        assert(m.filter(keep) =~= Seq::<Seq<char>>::empty()) by {
            reveal(Seq::filter);
            assert(m.drop_last() =~= Seq::<Seq<char>>::empty());
            assert(m.drop_last().filter(keep) =~= Seq::<Seq<char>>::empty());
            assert(!keep(m.last()));
        }
    } else {
        assert forall|i: int| 0 <= i < es.len() implies !(#[trigger] es[i]).contains(',') by {
            assert(is_settled_entry(es[i]));
        }
        lemma_comma_pieces_of_join(es);
        assert forall|i: int| 0 <= i < es.len() implies #[trigger] g(es[i]) == es[i] by {
            lemma_settled_entry_fixed(es[i]);
        }
        assert(es.map_values(g) =~= es);
        lemma_filter_nonempty_all_kept(es);
    }
}

/// A denylist screening blocks a country code exactly where some entry of
/// its denylist, uppercased, equals the uppercased code.
pub proof fn lemma_blocks_exactly(screening: AllowAllScreening, code: Seq<char>)
    ensures
        screening.blocks(code) <==> exists|i: int|
            0 <= i < screening.denylist@.len() && spec_to_uppercase(
                #[trigger] screening.denylist@[i]@,
            ) == spec_to_uppercase(code),
        screening.blocks_ascii(code) <==> exists|i: int|
            0 <= i < screening.denylist@.len() && spec_to_uppercase(
                #[trigger] screening.denylist@[i]@,
            ) == ascii_upper(code),
{
    let u = uppercased(string_views(screening.denylist@));
    assert forall|i: int| 0 <= i < screening.denylist@.len() implies u[i] == spec_to_uppercase(
        #[trigger] screening.denylist@[i]@,
    ) by {
        assert(string_views(screening.denylist@)[i] == screening.denylist@[i]@);
    }
    if screening.blocks(code) {
        let i = choose|i: int| 0 <= i < u.len() && u[i] == spec_to_uppercase(code);
        assert(spec_to_uppercase(screening.denylist@[i]@) == spec_to_uppercase(code));
    }
    if exists|i: int|
        0 <= i < screening.denylist@.len() && spec_to_uppercase(#[trigger] screening.denylist@[i]@)
            == spec_to_uppercase(code) {
        let i = choose|i: int|
            0 <= i < screening.denylist@.len() && spec_to_uppercase(
                #[trigger] screening.denylist@[i]@,
            ) == spec_to_uppercase(code);
        assert(u[i] == spec_to_uppercase(code));
    }
    if screening.blocks_ascii(code) {
        let i = choose|i: int| 0 <= i < u.len() && u[i] == ascii_upper(code);
        assert(spec_to_uppercase(screening.denylist@[i]@) == ascii_upper(code));
    }
    if exists|i: int|
        0 <= i < screening.denylist@.len() && spec_to_uppercase(#[trigger] screening.denylist@[i]@)
            == ascii_upper(code) {
        let i = choose|i: int|
            0 <= i < screening.denylist@.len() && spec_to_uppercase(
                #[trigger] screening.denylist@[i]@,
            ) == ascii_upper(code);
        assert(u[i] == ascii_upper(code));
    }
}

/// A value without commas is one denylist entry, its trimmed and uppercased
/// text, unless that is empty; with `lemma_denylist_entries_concat` this fixes
/// the parse of every value.
pub proof fn lemma_denylist_single_piece(piece: Seq<char>)
    requires
        !piece.contains(','),
    ensures
        denylist_entries(piece) == if spec_to_uppercase(trim(piece)).len() > 0 {
            seq![spec_to_uppercase(trim(piece))]
        } else {
            Seq::<Seq<char>>::empty()
        },
        ascii_denylist_entries(piece) == if trim(piece).len() > 0 {
            seq![ascii_upper(trim(piece))]
        } else {
            Seq::<Seq<char>>::empty()
        },
{
    lemma_comma_pieces_single(piece);
    let keep = |e: Seq<char>| e.len() > 0;
    let m1 = seq![piece].map_values(|p: Seq<char>| denylist_entry(p));
    let m2 = seq![piece].map_values(|p: Seq<char>| ascii_upper(trim(p)));
    assert(m1 =~= seq![spec_to_uppercase(trim(piece))]);
    assert(m2 =~= seq![ascii_upper(trim(piece))]);
    assert(ascii_upper(trim(piece)).len() == trim(piece).len());
    assert(m1.filter(keep) == (if keep(m1.last()) {
        m1.drop_last().filter(keep).push(m1.last())
    } else {
        m1.drop_last().filter(keep)
    })) by {
        reveal(Seq::filter);
    }
    assert(m2.filter(keep) == (if keep(m2.last()) {
        m2.drop_last().filter(keep).push(m2.last())
    } else {
        m2.drop_last().filter(keep)
    })) by {
        reveal(Seq::filter);
    }
    assert(m1.drop_last().filter(keep) =~= Seq::<Seq<char>>::empty()) by {
        reveal(Seq::filter);
        assert(m1.drop_last() =~= Seq::<Seq<char>>::empty());
    }
    assert(m2.drop_last().filter(keep) =~= Seq::<Seq<char>>::empty()) by {
        reveal(Seq::filter);
        assert(m2.drop_last() =~= Seq::<Seq<char>>::empty());
    }
    assert(Seq::<Seq<char>>::empty().push(m1.last()) =~= seq![spec_to_uppercase(trim(piece))]);
    assert(Seq::<Seq<char>>::empty().push(m2.last()) =~= seq![ascii_upper(trim(piece))]);
}

/// The text of a screening error: `Country <code> is blocked`, or
/// `Screening service unavailable`.
pub proof fn lemma_screening_message_text(e: ScreeningError)
    ensures
        match e {
            ScreeningError::CountryBlocked(code) => e.spec_message() == "Country "@ + code@
                + " is blocked"@,
            ScreeningError::Unavailable => e.spec_message() == "Screening service unavailable"@,
        },
{
}

/// The configured screening behaves as the screening it holds: the denylist
/// screening blocks by its denylist and is named `AllowAllScreening`; the
/// no-op screening blocks nothing and is named `NoOpScreening`.
pub proof fn lemma_configured_screening_delegates(r: ConfiguredScreening, code: Seq<char>)
    ensures
        match r {
            ConfiguredScreening::AllowAll(a) => {
                &&& r.blocks(code) == a.blocks(code)
                &&& r.blocks_ascii(code) == a.blocks_ascii(code)
                &&& r.spec_name() == "AllowAllScreening"@
            },
            ConfiguredScreening::NoOp(_) => {
                &&& !r.blocks(code)
                &&& !r.blocks_ascii(code)
                &&& r.spec_name() == "NoOpScreening"@
            },
        },
{
}

/// No denylist value gives the empty denylist; a value gives its parse.
pub proof fn lemma_optional_denylist_entries(value: Option<String>)
    ensures
        value is None ==> optional_denylist_entries(value).len() == 0,
        value matches Some(v) ==> optional_denylist_entries(value) == denylist_entries(v@),
{
}

/// A denylist screening with an empty denylist allows every country.
pub proof fn lemma_empty_denylist_allows_all(screening: AllowAllScreening, code: Seq<char>)
    requires
        screening.denylist@.len() == 0,
    ensures
        !screening.blocks(code),
{
    assert(string_views(screening.denylist@).len() == 0);
}

/// Screening of ASCII codes ignores ASCII case: two ASCII country codes that
/// differ only in the case of their letters are both blocked or both allowed
/// (the answer of `check_country` for an ASCII code is `blocks_ascii`).
pub proof fn lemma_ascii_case_ignored(screening: AllowAllScreening, a: Seq<char>, b: Seq<char>)
    requires
        ascii_lower(a) == ascii_lower(b),
    ensures
        screening.blocks_ascii(a) == screening.blocks_ascii(b),
        screening.blocks_ascii(a) == screening.blocks_ascii(ascii_lower(a)),
        screening.blocks_ascii(a) == screening.blocks_ascii(ascii_upper(a)),
{
    lemma_ascii_upper_of_lower(a);
    lemma_ascii_upper_of_lower(b);
    lemma_ascii_upper_of_lower(ascii_upper(a));
    lemma_ascii_upper_of_lower(ascii_lower(a));
    assert(ascii_lower(ascii_lower(a)) =~= ascii_lower(a));
    assert(ascii_lower(ascii_upper(a)) =~= ascii_lower(a));
}

/// Screening is case-insensitive: two country codes with the same uppercase
/// form are both blocked or both allowed.
pub proof fn lemma_screening_ignores_case(screening: AllowAllScreening, a: Seq<char>, b: Seq<char>)
    requires
        spec_to_uppercase(a) == spec_to_uppercase(b),
    ensures
        screening.blocks(a) == screening.blocks(b),
{
}

} // verus!
