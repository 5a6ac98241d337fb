//! The log of matches: each match is written as a block of labelled lines,
//! and the whole log is read back into records.
//!
//! A block looks like this, each line ended by a newline and the block
//! followed by an empty line:
//!
//! ```text
//! [2025-01-31 12:00:00] Found: 'bike' (max €150)
//!   Title: City bike
//!   Price: €120.00
//!   Location: Utrecht (3.2 km)
//!   Link: https://www.marktplaats.nl/v/...
//!   Image: none
//!   Description: Nearly new.
//! ============================================================
//! ```
//!
//! Reading opens a record at each header line and emits it at its rule line;
//! a block cut off before its rule line is dropped.
use vstd::prelude::*;
use crate::tekst::{
    deel, index_van, laatste_haakje, laatste_open_haakje, laatste_teken, laatste_van,
    lemma_index_van_eigenschap, staat_op, staat_op_in, tekens, tekst_uit, zoek_teken,
};

verus! {

/// One match as it stands in the log.
pub struct LogRecord {
    pub tijdstempel: String,
    pub zoekwoord: String,
    /// The ceiling of the wishlist entry: `unlimited` or a number of euros.
    pub max_prijs: String,
    pub titel: String,
    /// The price as shown, with its bracketed tag if it has one.
    pub prijs: String,
    pub locatie: String,
    pub afstand: String,
    pub link: String,
    pub afbeelding: Option<String>,
    pub beschrijving: String,
}

/// The fields of a `LogRecord` as character sequences.
pub struct LogRecordView {
    pub tijdstempel: Seq<char>,
    pub zoekwoord: Seq<char>,
    pub max_prijs: Seq<char>,
    pub titel: Seq<char>,
    pub prijs: Seq<char>,
    pub locatie: Seq<char>,
    pub afstand: Seq<char>,
    pub link: Seq<char>,
    pub afbeelding: Option<Seq<char>>,
    pub beschrijving: Seq<char>,
}

impl View for LogRecord {
    type V = LogRecordView;

    open spec fn view(&self) -> LogRecordView {
        LogRecordView {
            tijdstempel: self.tijdstempel@,
            zoekwoord: self.zoekwoord@,
            max_prijs: self.max_prijs@,
            titel: self.titel@,
            prijs: self.prijs@,
            locatie: self.locatie@,
            afstand: self.afstand@,
            link: self.link@,
            afbeelding: match self.afbeelding {
                Some(a) => Some(a@),
                None => None,
            },
            beschrijving: self.beschrijving@,
        }
    }
}

/// An optional record as it is seen.
pub open spec fn optie_view(o: Option<LogRecord>) -> Option<LogRecordView> {
    match o {
        Some(r) => Some(r@),
        None => None,
    }
}

/// The records as they are seen.
pub open spec fn records_view(rs: Seq<LogRecord>) -> Seq<LogRecordView> {
    rs.map_values(|r: LogRecord| r@)
}

/// What follows the time stamp on a header line.
pub open spec fn kop_anker() -> Seq<char> {
    "] Found: "@
}

/// What stands between the keyword and the ceiling on a header line.
pub open spec fn max_anker() -> Seq<char> {
    "' (max €"@
}

/// The label of the title line.
pub open spec fn titel_label() -> Seq<char> {
    "  Title: "@
}

/// The label of the price line.
pub open spec fn prijs_label() -> Seq<char> {
    "  Price: "@
}

/// The label of the location line.
pub open spec fn locatie_label() -> Seq<char> {
    "  Location: "@
}

/// The label of the link line.
pub open spec fn link_label() -> Seq<char> {
    "  Link: "@
}

/// The label of the image line.
pub open spec fn afbeelding_label() -> Seq<char> {
    "  Image: "@
}

/// The label of the description line.
pub open spec fn beschrijving_label() -> Seq<char> {
    "  Description: "@
}

/// What the image line says when a listing has no image.
pub open spec fn geen_afbeelding() -> Seq<char> {
    "none"@
}

/// The rule line that closes a block: sixty `=`.
pub open spec fn streep() -> Seq<char> {
    "============================================================"@
}

/// A record that has only its header fields.
pub open spec fn leeg_record(ts: Seq<char>, kw: Seq<char>, max: Seq<char>) -> LogRecordView {
    LogRecordView {
        tijdstempel: ts,
        zoekwoord: kw,
        max_prijs: max,
        titel: Seq::empty(),
        prijs: Seq::empty(),
        locatie: Seq::empty(),
        afstand: Seq::empty(),
        link: Seq::empty(),
        afbeelding: None,
        beschrijving: Seq::empty(),
    }
}

/// Whether `l` is a header line: `[`, the time stamp, then `] Found: `.
pub open spec fn is_kop(l: Seq<char>) -> bool {
    l.len() > 0 && l[0] == '[' && index_van(l, ']', 0) >= 0 && staat_op(
        l,
        kop_anker(),
        index_van(l, ']', 0),
    )
}

/// The keyword and ceiling in what follows the anchor of a header line:
/// `'keyword' (max €ceiling)`, split at the last quote. Text of another shape
/// is taken whole as the keyword.
pub open spec fn zoekwoord_en_max(rest: Seq<char>) -> (Seq<char>, Seq<char>) {
    let q = laatste_van(rest, '\'', rest.len() - 1);
    if rest.len() > 0 && rest[0] == '\'' && q >= 1 && staat_op(rest, max_anker(), q) && q
        + max_anker().len() < rest.len() && rest.last() == ')' {
        (rest.subrange(1, q), rest.subrange(q + max_anker().len(), rest.len() - 1))
    } else {
        (rest, Seq::empty())
    }
}

/// The record that a header line opens.
pub open spec fn kop_record(l: Seq<char>) -> LogRecordView {
    let j = index_van(l, ']', 0);
    let rest = l.subrange(j + kop_anker().len(), l.len() as int);
    let (kw, max) = zoekwoord_en_max(rest);
    leeg_record(l.subrange(1, j), kw, max)
}

/// `x` without one closing parenthesis at its end.
pub open spec fn zonder_sluithaakje(x: Seq<char>) -> Seq<char> {
    if x.len() > 0 && x.last() == ')' {
        x.drop_last()
    } else {
        x
    }
}

/// City and distance in `city (distance)`, split at the last `" ("`.
pub open spec fn plaats_en_afstand(x: Seq<char>) -> (Seq<char>, Seq<char>) {
    let p = laatste_open_haakje(x, x.len() - 2);
    if p >= 0 {
        (x.subrange(0, p), zonder_sluithaakje(x.subrange(p + 2, x.len() as int)))
    } else {
        (x, Seq::empty())
    }
}

/// What follows label `lab` on line `l`.
pub open spec fn na_label(l: Seq<char>, lab: Seq<char>) -> Seq<char> {
    l.subrange(lab.len() as int, l.len() as int)
}

/// The open record `r` after field line `l`; a line with no known label
/// leaves it as it is.
pub open spec fn veld_bijwerken(r: LogRecordView, l: Seq<char>) -> LogRecordView {
    if staat_op(l, titel_label(), 0) {
        LogRecordView { titel: na_label(l, titel_label()), ..r }
    } else if staat_op(l, prijs_label(), 0) {
        LogRecordView { prijs: na_label(l, prijs_label()), ..r }
    } else if staat_op(l, locatie_label(), 0) {
        let (plaats, afstand) = plaats_en_afstand(na_label(l, locatie_label()));
        LogRecordView { locatie: plaats, afstand: afstand, ..r }
    } else if staat_op(l, link_label(), 0) {
        LogRecordView { link: na_label(l, link_label()), ..r }
    } else if staat_op(l, afbeelding_label(), 0) {
        let a = na_label(l, afbeelding_label());
        LogRecordView { afbeelding: if a == geen_afbeelding() { None } else { Some(a) }, ..r }
    } else if staat_op(l, beschrijving_label(), 0) {
        LogRecordView { beschrijving: na_label(l, beschrijving_label()), ..r }
    } else {
        r
    }
}

/// One line read: a header opens a record, a rule line emits the open record,
/// a field line fills it in; lines outside a record are passed over.
pub open spec fn stap(
    acc: Seq<LogRecordView>,
    open: Option<LogRecordView>,
    l: Seq<char>,
) -> (Seq<LogRecordView>, Option<LogRecordView>) {
    if is_kop(l) {
        (acc, Some(kop_record(l)))
    } else {
        match open {
            None => (acc, None),
            Some(r) => if l == streep() {
                (acc.push(r), None)
            } else {
                (acc, Some(veld_bijwerken(r, l)))
            },
        }
    }
}

/// The records read from the lines of `t` that start at `pos`, after `acc`.
pub open spec fn decodeer_vanaf(
    t: Seq<char>,
    pos: int,
    acc: Seq<LogRecordView>,
    open: Option<LogRecordView>,
) -> Seq<LogRecordView>
    decreases t.len() - pos,
{
    if pos < 0 || pos > t.len() {
        acc
    } else {
        let k = index_van(t, '\n', pos);
        if k < pos || k >= t.len() {
            stap(acc, open, t.subrange(pos, t.len() as int)).0
        } else {
            let (a2, o2) = stap(acc, open, t.subrange(pos, k));
            decodeer_vanaf(t, k + 1, a2, o2)
        }
    }
}

/// The records that a log holds, oldest first.
pub open spec fn decodeer(t: Seq<char>) -> Seq<LogRecordView> {
    decodeer_vanaf(t, 0, Seq::empty(), None)
}

impl LogRecord {
    /// A record with the given header fields and every other field empty.
    pub fn leeg(tijdstempel: String, zoekwoord: String, max_prijs: String) -> (r: LogRecord)
        ensures
            r@ == leeg_record(tijdstempel@, zoekwoord@, max_prijs@),
    {
        LogRecord {
            tijdstempel,
            zoekwoord,
            max_prijs,
            titel: String::new(),
            prijs: String::new(),
            locatie: String::new(),
            afstand: String::new(),
            link: String::new(),
            afbeelding: None,
            beschrijving: String::new(),
        }
    }
}

/// Whether `l` begins with label `lab`.
fn begint_met_label(l: &Vec<char>, lab: &str) -> (r: bool)
    ensures
        r == staat_op(l@, lab@, 0),
{
    let p = tekens(lab);
    staat_op_in(l, &p, 0)
}

/// Whether line `l` is a header; if so, the position of its first `]`.
fn kop_einde(l: &Vec<char>) -> (r: Option<usize>)
    ensures
        r is Some <==> is_kop(l@),
        r is Some ==> r->0 == index_van(l@, ']', 0) && r->0 + kop_anker().len() <= l@.len(),
{
    if l.len() == 0 || l[0] != '[' {
        return None;
    }
    let j = zoek_teken(l, ']', 0);
    if j == l.len() {
        return None;
    }
    let anker = tekens("] Found: ");
    if staat_op_in(l, &anker, j) {
        Some(j)
    } else {
        None
    }
}

/// The record that header line `l` opens, `j` being its first `]`.
fn lees_kop(l: &Vec<char>, j: usize) -> (r: LogRecord)
    requires
        is_kop(l@),
        j == index_van(l@, ']', 0),
        j + kop_anker().len() <= l@.len(),
    ensures
        r@ == kop_record(l@),
{
    proof {
        reveal_strlit("] Found: ");
        lemma_index_van_eigenschap(l@, ']', 0);
    }
    let ts = tekst_uit(l, 1, j);
    let lengte = l.len();
    let rest = deel(l, j + 9, lengte);
    assert(rest@ == l@.subrange(j + kop_anker().len(), l@.len() as int));
    let anker = tekens("' (max €");
    proof {
        reveal_strlit("' (max €");
    }
    let n = rest.len();
    let q = laatste_teken(&rest, '\'');
    match q {
        Some(q) => {
            if n > 0 && rest[0] == '\'' && q >= 1 && staat_op_in(&rest, &anker, q) && q + 8 < n
                && rest[n - 1] == ')' {
                let kw = tekst_uit(&rest, 1, q);
                let max = tekst_uit(&rest, q + 8, n - 1);
                return LogRecord::leeg(ts, kw, max);
            }
        },
        None => {},
    }
    let kw = tekst_uit(&rest, 0, n);
    assert(rest@.subrange(0, n as int) == rest@);
    LogRecord::leeg(ts, kw, String::new())
}

/// Fills in open record `r` from field line `l`.
fn werk_veld_bij(r: LogRecord, l: &Vec<char>) -> (u: LogRecord)
    ensures
        u@ == veld_bijwerken(r@, l@),
{
    let mut r = r;
    let n = l.len();
    proof {
        reveal_strlit("  Title: ");
        reveal_strlit("  Price: ");
        reveal_strlit("  Location: ");
        reveal_strlit("  Link: ");
        reveal_strlit("  Image: ");
        reveal_strlit("  Description: ");
    }
    if begint_met_label(l, "  Title: ") {
        r.titel = tekst_uit(l, 9, n);
    } else if begint_met_label(l, "  Price: ") {
        r.prijs = tekst_uit(l, 9, n);
    } else if begint_met_label(l, "  Location: ") {
        let x = deel(l, 12, n);
        let m = x.len();
        match laatste_haakje(&x) {
            Some(p) => {
                r.locatie = tekst_uit(&x, 0, p);
                if m >= p + 3 && x[m - 1] == ')' {
                    r.afstand = tekst_uit(&x, p + 2, m - 1);
                    assert(x@.subrange(p + 2, m - 1) == x@.subrange(p + 2, m as int).drop_last());
                } else {
                    r.afstand = tekst_uit(&x, p + 2, m);
                }
            },
            None => {
                r.locatie = tekst_uit(&x, 0, m);
                assert(x@.subrange(0, m as int) == x@);
                r.afstand = String::new();
            },
        }
    } else if begint_met_label(l, "  Link: ") {
        r.link = tekst_uit(l, 8, n);
    } else if begint_met_label(l, "  Image: ") {
        let a = deel(l, 9, n);
        let geen = tekens("none");
        if a.len() == geen.len() && staat_op_in(&a, &geen, 0) {
            assert(a@.subrange(0, geen@.len() as int) == a@);
            r.afbeelding = None;
        } else {
            proof {
                if a@ == geen@ {
                    assert(a@.subrange(0, geen@.len() as int) == a@);
                }
            }
            r.afbeelding = Some(tekst_uit(&a, 0, a.len()));
            assert(a@.subrange(0, a@.len() as int) == a@);
        }
    } else if begint_met_label(l, "  Description: ") {
        r.beschrijving = tekst_uit(l, 15, n);
    }
    r
}

/// Reads every complete record of a log, oldest first. Lines are ended by a
/// newline; a record counts once its rule line has been read, so a block cut
/// off part way is left out, and no input makes this fail.
pub fn decodeer_log(tekst: &str) -> (r: Vec<LogRecord>)
    ensures
        records_view(r@) == decodeer(tekst@),
{
    let t = tekens(tekst);
    let streep_tekens = tekens("============================================================");
    let mut acc: Vec<LogRecord> = Vec::new();
    let mut open: Option<LogRecord> = None;
    let mut pos: usize = 0;
    assert(records_view(acc@) == Seq::<LogRecordView>::empty());
    loop
        invariant
            pos <= t@.len(),
            t@ == tekst@,
            streep_tekens@ == streep(),
            decodeer_vanaf(t@, pos as int, records_view(acc@), optie_view(open)) == decodeer(
                tekst@,
            ),
        decreases t@.len() - pos,
    {
        let k = zoek_teken(&t, '\n', pos);
        proof {
            lemma_index_van_eigenschap(t@, '\n', pos as int);
        }
        let l = deel(&t, pos, k);
        let ghost na = stap(records_view(acc@), optie_view(open), l@);
        let vorige = open;
        match kop_einde(&l) {
            Some(j) => {
                open = Some(lees_kop(&l, j));
            },
            None => {
                match vorige {
                    Some(o) => {
                        if l.len() == streep_tekens.len() && staat_op_in(&l, &streep_tekens, 0) {
                            assert(l@.subrange(0, l@.len() as int) == l@);
                            acc.push(o);
                            open = None;
                            assert(records_view(acc@) == na.0);
                        } else {
                            proof {
                                if l@ == streep() {
                                    assert(l@.subrange(0, l@.len() as int) == l@);
                                }
                            }
                            open = Some(werk_veld_bij(o, &l));
                        }
                    },
                    None => {
                        open = None;
                    },
                }
            },
        }
        if k == t.len() {
            return acc;
        }
        pos = k + 1;
    }
}

/// The header line of a record.
pub open spec fn kop_regel(r: LogRecordView) -> Seq<char> {
    "["@ + r.tijdstempel + "] Found: '"@ + r.zoekwoord + max_anker() + r.max_prijs + ")"@
}

/// The lines that a record is written as, the last one empty.
pub open spec fn regels_van(r: LogRecordView) -> Seq<Seq<char>> {
    seq![
        kop_regel(r),
        titel_label() + r.titel,
        prijs_label() + r.prijs,
        locatie_label() + r.locatie + " ("@ + r.afstand + ")"@,
        link_label() + r.link,
        afbeelding_label() + match r.afbeelding {
            Some(a) => a,
            None => geen_afbeelding(),
        },
        beschrijving_label() + r.beschrijving,
        streep(),
        Seq::empty(),
    ]
}

/// Lines joined into text, each ended by a newline.
pub open spec fn regels_tekst(ls: Seq<Seq<char>>) -> Seq<char>
    decreases ls.len(),
{
    if ls.len() == 0 {
        Seq::empty()
    } else {
        ls[0] + seq!['\n'] + regels_tekst(ls.drop_first())
    }
}

/// The block that a record is written as.
pub open spec fn codeer(r: LogRecordView) -> Seq<char> {
    regels_tekst(regels_van(r))
}

/// Text joined from lines: adding a line adds it and a newline at the end.
pub proof fn lemma_regels_tekst_push(ls: Seq<Seq<char>>, l: Seq<char>)
    ensures
        regels_tekst(ls.push(l)) == regels_tekst(ls) + l + seq!['\n'],
    decreases ls.len(),
{
    if ls.len() == 0 {
        assert(ls.push(l).drop_first() == Seq::<Seq<char>>::empty());
        assert(ls.push(l)[0] == l);
        assert(regels_tekst(Seq::<Seq<char>>::empty()) == Seq::<char>::empty());
        assert(regels_tekst(ls) == Seq::<char>::empty());
        assert(regels_tekst(ls.push(l)) =~= regels_tekst(ls) + l + seq!['\n']);
    } else {
        assert(ls.push(l).drop_first() == ls.drop_first().push(l));
        lemma_regels_tekst_push(ls.drop_first(), l);
        assert(ls.push(l)[0] == ls[0]);
        assert(regels_tekst(ls.push(l)) =~= regels_tekst(ls) + l + seq!['\n']);
    }
}

/// Joins lines into text, each ended by a newline.
fn schrijf_regels(ls: &Vec<String>) -> (r: String)
    ensures
        r@ == regels_tekst(ls@.map_values(|l: String| l@)),
{
    let mut r = String::new();
    let mut i: usize = 0;
    while i < ls.len()
        invariant
            i <= ls@.len(),
            r@ == regels_tekst(ls@.subrange(0, i as int).map_values(|l: String| l@)),
        decreases ls.len() - i,
    {
        proof {
            let voor = ls@.subrange(0, i as int).map_values(|l: String| l@);
            assert(ls@.subrange(0, i + 1).map_values(|l: String| l@) == voor.push(ls@[i as int]@));
            lemma_regels_tekst_push(voor, ls@[i as int]@);
        }
        r.append(ls[i].as_str());
        crate::tekst::voeg_teken_toe(&mut r, '\n');
        i = i + 1;
    }
    assert(ls@.subrange(0, ls@.len() as int) == ls@);
    r
}

/// Writes a record as its block of the log.
pub fn codeer_record(r: &LogRecord) -> (t: String)
    ensures
        t@ == codeer(r@),
{
    let mut kop = String::from_str("[");
    kop.append(r.tijdstempel.as_str());
    kop.append("] Found: '");
    kop.append(r.zoekwoord.as_str());
    kop.append("' (max €");
    kop.append(r.max_prijs.as_str());
    kop.append(")");
    let mut titel = String::from_str("  Title: ");
    titel.append(r.titel.as_str());
    let mut prijs = String::from_str("  Price: ");
    prijs.append(r.prijs.as_str());
    let mut locatie = String::from_str("  Location: ");
    locatie.append(r.locatie.as_str());
    locatie.append(" (");
    locatie.append(r.afstand.as_str());
    locatie.append(")");
    let mut link = String::from_str("  Link: ");
    link.append(r.link.as_str());
    let mut afbeelding = String::from_str("  Image: ");
    match &r.afbeelding {
        Some(a) => afbeelding.append(a.as_str()),
        None => afbeelding.append("none"),
    }
    let mut beschrijving = String::from_str("  Description: ");
    beschrijving.append(r.beschrijving.as_str());
    let streep_regel = String::from_str("============================================================");
    let mut ls: Vec<String> = Vec::new();
    ls.push(kop);
    ls.push(titel);
    ls.push(prijs);
    ls.push(locatie);
    ls.push(link);
    ls.push(afbeelding);
    ls.push(beschrijving);
    ls.push(streep_regel);
    ls.push(String::new());
    assert(ls@.map_values(|l: String| l@) == regels_van(r@));
    schrijf_regels(&ls)
}

} // verus!
