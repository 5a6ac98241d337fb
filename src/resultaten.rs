//! What the dashboard lists: the records of the log, newest first, optionally
//! only those whose title, description or keyword hold a search term, in any
//! case.
use vstd::prelude::*;
use crate::codec::{decodeer, decodeer_log, records_view, LogRecord, LogRecordView};
use crate::tekst::{bevat, bevat_in, tekens};

verus! {

/// What `str::to_lowercase` makes of a text.
pub uninterp spec fn kleine_letters_van(s: Seq<char>) -> Seq<char>;

/// Relies on `str::to_lowercase`: the result depends on the characters alone,
/// and an empty text stays empty.
#[verifier::external_body]
fn kleine_letters(s: &str) -> (r: String)
    ensures
        r@ == kleine_letters_van(s@),
        s@.len() == 0 ==> r@.len() == 0,
{
    s.to_lowercase()
}

/// Whether the lower-cased term `q` occurs in one of the lower-cased title,
/// description or keyword.
pub open spec fn term_komt_voor(q: Seq<char>, titel: Seq<char>, beschrijving: Seq<char>, zoekwoord: Seq<char>) -> bool {
    bevat(titel, q) || bevat(beschrijving, q) || bevat(zoekwoord, q)
}

/// Whether record `r` is listed for search term `term`, case ignored.
pub open spec fn wordt_getoond(r: LogRecordView, term: Option<Seq<char>>) -> bool {
    match term {
        None => true,
        Some(t) => term_komt_voor(
            kleine_letters_van(t),
            kleine_letters_van(r.titel),
            kleine_letters_van(r.beschrijving),
            kleine_letters_van(r.zoekwoord),
        ),
    }
}

/// The records of `rs` that are listed for `term`, the last one first.
pub open spec fn selectie(rs: Seq<LogRecordView>, term: Option<Seq<char>>) -> Seq<LogRecordView>
    decreases rs.len(),
{
    if rs.len() == 0 {
        Seq::empty()
    } else {
        let rest = selectie(rs.drop_first(), term);
        if wordt_getoond(rs[0], term) {
            rest.push(rs[0])
        } else {
            rest
        }
    }
}

/// Whether the lower-cased term `q` occurs in one of the lower-cased title,
/// description or keyword.
pub fn term_komt_voor_in(q: &str, titel: &str, beschrijving: &str, zoekwoord: &str) -> (r: bool)
    ensures
        r == term_komt_voor(q@, titel@, beschrijving@, zoekwoord@),
{
    let p = tekens(q);
    bevat_in(&tekens(titel), &p) || bevat_in(&tekens(beschrijving), &p) || bevat_in(
        &tekens(zoekwoord),
        &p,
    )
}

/// Whether record `r` is listed for search term `term`.
fn toon(r: &LogRecord, term: &Option<String>) -> (b: bool)
    ensures
        b == wordt_getoond(r@, match term {
            Some(t) => Some(t@),
            None => None,
        }),
{
    match term {
        None => true,
        Some(t) => {
            let q = kleine_letters(t.as_str());
            let titel = kleine_letters(r.titel.as_str());
            let beschrijving = kleine_letters(r.beschrijving.as_str());
            let zoekwoord = kleine_letters(r.zoekwoord.as_str());
            term_komt_voor_in(q.as_str(), titel.as_str(), beschrijving.as_str(), zoekwoord.as_str())
        },
    }
}

/// The records of log `log` that are listed for `zoekterm`, newest first.
pub fn haal_resultaten(log: &str, zoekterm: &Option<String>) -> (r: Vec<LogRecord>)
    ensures
        records_view(r@) == selectie(decodeer(log@), match zoekterm {
            Some(t) => Some(t@),
            None => None,
        }),
{
    let ghost term = match zoekterm {
        Some(t) => Some(t@),
        None => None,
    };
    let mut records = decodeer_log(log);
    let ghost rs = decodeer(log@);
    let ghost n = records@.len();
    let mut uit: Vec<LogRecord> = Vec::new();
    assert(rs.subrange(n as int, n as int) =~= Seq::<LogRecordView>::empty());
    assert(records_view(uit@) =~= Seq::<LogRecordView>::empty());
    while records.len() > 0
        invariant
            records@.len() <= n == rs.len(),
            term == match zoekterm {
                Some(t) => Some(t@),
                None => None,
            },
            rs == decodeer(log@),
            records_view(records@) == rs.subrange(0, records@.len() as int),
            records_view(uit@) == selectie(rs.subrange(records@.len() as int, n as int), term),
        decreases records.len(),
    {
        let k = records.len();
        let ghost voor = records@;
        let ghost uit_voor = uit@;
        let r = records.pop().unwrap();
        proof {
            assert(r == voor[k - 1]);
            assert(records_view(voor)[k - 1] == voor[k - 1]@);
            assert(rs.subrange(0, k as int)[k - 1] == rs[k - 1]);
            assert(r@ == rs[k - 1]);
            assert(rs.subrange(k - 1, n as int).drop_first() =~= rs.subrange(k as int, n as int));
            assert(rs.subrange(k - 1, n as int)[0] == rs[k - 1]);
            assert(records_view(records@) =~= rs.subrange(0, k - 1));
            let sub = rs.subrange(k - 1, n as int);
            assert(sub.len() > 0);
            assert(selectie(sub, term) == (if wordt_getoond(sub[0], term) {
                selectie(sub.drop_first(), term).push(sub[0])
            } else {
                selectie(sub.drop_first(), term)
            }));
        }
        if toon(&r, zoekterm) {
            uit.push(r);
            assert(records_view(uit@) =~= records_view(uit_voor).push(rs[k - 1]));
        }
    }
    assert(rs.subrange(0, n as int) =~= rs);
    uit
}

} // verus!
