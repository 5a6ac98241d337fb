//! The wishlist: one `keyword;price` entry per line, with comments and blank
//! lines skipped and bad lines reported.
use vstd::prelude::*;
use crate::prijs::MaxPrijs;
use crate::tekst::{index_van, tekens};

verus! {

/// Whether `c` is white space in the Unicode sense (`char::is_whitespace`).
pub open spec fn is_wit(c: char) -> bool {
    ('\u{9}' <= c && c <= '\u{d}') || c == ' ' || c == '\u{85}' || c == '\u{a0}' || c
        == '\u{1680}' || ('\u{2000}' <= c && c <= '\u{200a}') || c == '\u{2028}' || c
        == '\u{2029}' || c == '\u{202f}' || c == '\u{205f}' || c == '\u{3000}'
}

/// The first position at or after `i` that holds no white space, or the length.
pub open spec fn eerste_niet_wit(s: Seq<char>, i: int) -> int
    decreases s.len() - i,
{
    if i < 0 || i >= s.len() {
        s.len() as int
    } else if is_wit(s[i]) {
        eerste_niet_wit(s, i + 1)
    } else {
        i
    }
}

/// The end of `s[a..j]` once the white space at its end is cut off.
pub open spec fn eind_niet_wit(s: Seq<char>, a: int, j: int) -> int
    decreases j - a,
{
    if j <= a || j > s.len() {
        a
    } else if is_wit(s[j - 1]) {
        eind_niet_wit(s, a, j - 1)
    } else {
        j
    }
}

/// `s` without white space at either end, as `str::trim` gives it.
pub open spec fn getrimd(s: Seq<char>) -> Seq<char> {
    let a = eerste_niet_wit(s, 0);
    s.subrange(a, eind_niet_wit(s, a, s.len() as int))
}

/// Whether `c` is an ASCII digit.
pub open spec fn is_cijfer(c: char) -> bool {
    '0' <= c && c <= '9'
}

/// The number that a string of digits denotes.
pub open spec fn waarde(s: Seq<char>) -> int
    decreases s.len(),
{
    if s.len() == 0 {
        0
    } else {
        waarde(s.drop_last()) * 10 + (s.last() as int - '0' as int)
    }
}

/// `s` without a leading sign.
pub open spec fn zonder_teken(s: Seq<char>) -> Seq<char> {
    if s.len() > 0 && (s[0] == '-' || s[0] == '+') {
        s.drop_first()
    } else {
        s
    }
}

/// Whether every character of `s` is a digit.
pub open spec fn alle_cijfers(s: Seq<char>) -> bool {
    forall|i: int| 0 <= i < s.len() ==> is_cijfer(#[trigger] s[i])
}

/// The number that `s` denotes as `i32::from_str` reads it: an optional sign,
/// then at least one digit, in the range of `i32`.
pub open spec fn als_i32(s: Seq<char>) -> Option<int> {
    let neg = s.len() > 0 && s[0] == '-';
    let ds = zonder_teken(s);
    if ds.len() == 0 || !alle_cijfers(ds) {
        None
    } else {
        let v = if neg {
            -waarde(ds)
        } else {
            waarde(ds)
        };
        if i32::MIN <= v <= i32::MAX {
            Some(v)
        } else {
            None
        }
    }
}

/// The ceiling that a price field of the wishlist stands for.
pub open spec fn grens_van(v: Option<int>) -> Option<MaxPrijs> {
    match v {
        Some(n) => if n == -1 {
            Some(MaxPrijs::Onbeperkt)
        } else if n == 0 {
            Some(MaxPrijs::AlleenGratis)
        } else if n > 0 {
            Some(MaxPrijs::Begrensd(n as i32))
        } else {
            None
        },
        None => None,
    }
}

/// What one line of the wishlist amounts to.
pub enum RegelUitkomst {
    /// A blank line or a comment.
    Overgeslagen,
    /// An entry.
    Item(WenslijstItem),
    /// A line that is neither: it is reported.
    Ongeldig,
}

/// What one line of the wishlist amounts to, in terms of its characters.
pub enum RegelBetekenis {
    Overgeslagen,
    Item(Seq<char>, MaxPrijs),
    Ongeldig,
}

/// The meaning of a line: blank and `#` lines are skipped; otherwise the line
/// must hold a `;` with a non-empty keyword before the first one and a valid
/// ceiling (`-1`, `0` or a positive number) after it.
pub open spec fn betekenis(l: Seq<char>) -> RegelBetekenis {
    let t = getrimd(l);
    if t.len() == 0 || t[0] == '#' {
        RegelBetekenis::Overgeslagen
    } else {
        let k = index_van(t, ';', 0);
        if k < 0 {
            RegelBetekenis::Ongeldig
        } else {
            let woord = getrimd(t.subrange(0, k));
            match grens_van(als_i32(getrimd(t.subrange(k + 1, t.len() as int)))) {
                Some(g) => if woord.len() > 0 {
                    RegelBetekenis::Item(woord, g)
                } else {
                    RegelBetekenis::Ongeldig
                },
                None => RegelBetekenis::Ongeldig,
            }
        }
    }
}

/// A keyword to search for and the ceiling it is searched with.
pub struct WenslijstItem {
    pub zoekwoord: String,
    pub max_prijs: MaxPrijs,
}

/// A line of the wishlist that could not be read: its number, counted from 1,
/// and its text.
pub struct Waarschuwing {
    pub regel: usize,
    pub inhoud: String,
}

/// The entries read from a wishlist, and the lines that were rejected.
pub struct Wenslijst {
    pub items: Vec<WenslijstItem>,
    pub waarschuwingen: Vec<Waarschuwing>,
}

impl RegelUitkomst {
    pub open spec fn view(&self) -> RegelBetekenis {
        match self {
            RegelUitkomst::Overgeslagen => RegelBetekenis::Overgeslagen,
            RegelUitkomst::Item(it) => RegelBetekenis::Item(it.zoekwoord@, it.max_prijs),
            RegelUitkomst::Ongeldig => RegelBetekenis::Ongeldig,
        }
    }
}

/// The entries that the lines `regels` give, in order.
pub open spec fn items_van(regels: Seq<Seq<char>>) -> Seq<(Seq<char>, MaxPrijs)>
    decreases regels.len(),
{
    if regels.len() == 0 {
        Seq::empty()
    } else {
        let voor = items_van(regels.drop_last());
        match betekenis(regels.last()) {
            RegelBetekenis::Item(w, g) => voor.push((w, g)),
            _ => voor,
        }
    }
}

/// The rejected lines among `regels`, with their numbers counted from 1.
pub open spec fn fouten_van(regels: Seq<Seq<char>>) -> Seq<(int, Seq<char>)>
    decreases regels.len(),
{
    if regels.len() == 0 {
        Seq::empty()
    } else {
        let voor = fouten_van(regels.drop_last());
        match betekenis(regels.last()) {
            RegelBetekenis::Ongeldig => voor.push((regels.len() as int, regels.last())),
            _ => voor,
        }
    }
}

/// Whether `c` is white space.
pub fn is_witruimte(c: char) -> (r: bool)
    ensures
        r == is_wit(c),
{
    ('\u{9}' <= c && c <= '\u{d}') || c == ' ' || c == '\u{85}' || c == '\u{a0}' || c
        == '\u{1680}' || ('\u{2000}' <= c && c <= '\u{200a}') || c == '\u{2028}' || c
        == '\u{2029}' || c == '\u{202f}' || c == '\u{205f}' || c == '\u{3000}'
}

/// `v[van..tot]` without white space at either end.
fn trim(v: &Vec<char>, van: usize, tot: usize) -> (r: Vec<char>)
    requires
        van <= tot <= v@.len(),
    ensures
        r@ == getrimd(v@.subrange(van as int, tot as int)),
{
    let ghost s = v@.subrange(van as int, tot as int);
    let mut a = van;
    while a < tot && is_witruimte(v[a])
        invariant
            van <= a <= tot <= v@.len(),
            s == v@.subrange(van as int, tot as int),
            eerste_niet_wit(s, (a - van) as int) == eerste_niet_wit(s, 0),
        decreases tot - a,
    {
        a = a + 1;
    }
    let mut e = tot;
    let ghost a0 = (a - van) as int;
    while e > a && is_witruimte(v[e - 1])
        invariant
            van <= a <= e <= tot <= v@.len(),
            s == v@.subrange(van as int, tot as int),
            a0 == a - van,
            a0 == eerste_niet_wit(s, 0),
            eind_niet_wit(s, a0, (e - van) as int) == eind_niet_wit(s, a0, s.len() as int),
        decreases e - a,
    {
        e = e - 1;
    }
    let mut r: Vec<char> = Vec::new();
    let mut i = a;
    while i < e
        invariant
            a <= i <= e <= v@.len(),
            r@ == v@.subrange(a as int, i as int),
        decreases e - i,
    {
        r.push(v[i]);
        assert(v@.subrange(a as int, i + 1) == v@.subrange(a as int, i as int).push(v@[i as int]));
        i = i + 1;
    }
    assert(r@ == s.subrange(a0, (e - van) as int));
    r
}

proof fn lemma_waarde_niet_negatief(s: Seq<char>)
    requires
        forall|i: int| 0 <= i < s.len() ==> is_cijfer(#[trigger] s[i]),
    ensures
        waarde(s) >= 0,
    decreases s.len(),
{
    if s.len() > 0 {
        assert(is_cijfer(s[s.len() - 1]));
        lemma_waarde_niet_negatief(s.drop_last());
    }
}

/// The number that `v[van..]` denotes as `i32::from_str` reads it.
fn lees_i32(v: &Vec<char>) -> (r: Option<i32>)
    ensures
        r is Some <==> als_i32(v@) is Some,
        r is Some ==> als_i32(v@) == Some(r->0 as int),
{
    let n = v.len();
    let neg = n > 0 && v[0] == '-';
    let start: usize = if n > 0 && (v[0] == '-' || v[0] == '+') {
        1
    } else {
        0
    };
    let ghost ds = zonder_teken(v@);
    assert(ds == v@.subrange(start as int, n as int));
    if start == n {
        return None;
    }
    let grens: u64 = 2147483648;
    let mut acc: u64 = 0;
    let mut te_groot = false;
    let mut i = start;
    while i < n
        invariant
            start <= i <= n == v@.len(),
            grens == 2147483648,
            ds == zonder_teken(v@),
            ds == v@.subrange(start as int, n as int),
            forall|k: int| 0 <= k < i - start ==> is_cijfer(#[trigger] ds[k]),
            te_groot ==> waarde(ds.subrange(0, i - start)) > grens,
            !te_groot ==> acc == waarde(ds.subrange(0, i - start)) && acc <= grens,
        decreases n - i,
    {
        let c = v[i];
        if !('0' <= c && c <= '9') {
            assert(!is_cijfer(ds[i - start]));
            assert(!alle_cijfers(ds));
            return None;
        }
        let ghost voor = ds.subrange(0, i - start);
        let ghost na = ds.subrange(0, i - start + 1);
        assert(na.drop_last() == voor);
        proof {
            lemma_waarde_niet_negatief(voor);
        }
        if !te_groot {
            let d = (c as u32 - '0' as u32) as u64;
            assert(d <= 9);
            assert(d == ds[i - start] as int - '0' as int);
            let nieuw = acc * 10 + d;
            if nieuw > grens {
                te_groot = true;
            } else {
                acc = nieuw;
            }
        }
        i = i + 1;
    }
    assert(ds.subrange(0, ds.len() as int) == ds);
    if te_groot {
        return None;
    }
    if neg {
        Some((-(acc as i64)) as i32)
    } else if acc == grens {
        None
    } else {
        Some(acc as i32)
    }
}

/// Reads one line of the wishlist.
pub fn parseer_regel(regel: &str) -> (r: RegelUitkomst)
    ensures
        r.view() == betekenis(regel@),
{
    let v = tekens(regel);
    let t = trim(&v, 0, v.len());
    assert(v@.subrange(0, v@.len() as int) == v@);
    if t.len() == 0 || t[0] == '#' {
        return RegelUitkomst::Overgeslagen;
    }
    let mut k: usize = 0;
    while k < t.len() && t[k] != ';'
        invariant
            k <= t@.len(),
            index_van(t@, ';', k as int) == index_van(t@, ';', 0),
        decreases t.len() - k,
    {
        k = k + 1;
    }
    if k == t.len() {
        return RegelUitkomst::Ongeldig;
    }
    let woord = trim(&t, 0, k);
    let waarde_tekst = trim(&t, k + 1, t.len());
    let grens = match lees_i32(&waarde_tekst) {
        Some(n) => if n == -1 {
            Some(MaxPrijs::Onbeperkt)
        } else if n == 0 {
            Some(MaxPrijs::AlleenGratis)
        } else if n > 0 {
            Some(MaxPrijs::Begrensd(n))
        } else {
            None
        },
        None => None,
    };
    match grens {
        Some(g) => if woord.len() > 0 {
            let mut zoekwoord = String::new();
            let mut i: usize = 0;
            while i < woord.len()
                invariant
                    i <= woord@.len(),
                    zoekwoord@ == woord@.subrange(0, i as int),
                decreases woord.len() - i,
            {
                crate::tekst::voeg_teken_toe(&mut zoekwoord, woord[i]);
                assert(woord@.subrange(0, i + 1) == woord@.subrange(0, i as int).push(woord@[i as int]));
                i = i + 1;
            }
            assert(woord@.subrange(0, woord@.len() as int) == woord@);
            RegelUitkomst::Item(WenslijstItem { zoekwoord, max_prijs: g })
        } else {
            RegelUitkomst::Ongeldig
        },
        None => RegelUitkomst::Ongeldig,
    }
}

/// The text of each line of `regels`.
pub open spec fn teksten(regels: Seq<String>) -> Seq<Seq<char>> {
    regels.map_values(|r: String| r@)
}

impl Wenslijst {
    /// The entries as keyword and ceiling.
    pub open spec fn items_view(&self) -> Seq<(Seq<char>, MaxPrijs)> {
        self.items@.map_values(|it: WenslijstItem| (it.zoekwoord@, it.max_prijs))
    }

    /// The warnings as line number and text.
    pub open spec fn fouten_view(&self) -> Seq<(int, Seq<char>)> {
        self.waarschuwingen@.map_values(|w: Waarschuwing| (w.regel as int, w.inhoud@))
    }
}

/// Reads a wishlist given as its lines. Each line is read on its own: an
/// entry is kept in order, a bad line becomes a warning with its number and
/// text, and blank lines and comments give nothing.
pub fn parseer_wenslijst(regels: &Vec<String>) -> (r: Wenslijst)
    ensures
        r.items_view() == items_van(teksten(regels@)),
        r.fouten_view() == fouten_van(teksten(regels@)),
{
    let mut items: Vec<WenslijstItem> = Vec::new();
    let mut waarschuwingen: Vec<Waarschuwing> = Vec::new();
    let mut i: usize = 0;
    while i < regels.len()
        invariant
            i <= regels@.len(),
            (Wenslijst { items, waarschuwingen }).items_view() == items_van(
                teksten(regels@.subrange(0, i as int)),
            ),
            (Wenslijst { items, waarschuwingen }).fouten_view() == fouten_van(
                teksten(regels@.subrange(0, i as int)),
            ),
        decreases regels.len() - i,
    {
        let ghost voor = teksten(regels@.subrange(0, i as int));
        let ghost na = teksten(regels@.subrange(0, i + 1));
        assert(na.drop_last() == voor);
        assert(na.last() == regels@[i as int]@);
        let uitkomst = parseer_regel(regels[i].as_str());
        match uitkomst {
            RegelUitkomst::Item(it) => {
                items.push(it);
            },
            RegelUitkomst::Ongeldig => {
                waarschuwingen.push(Waarschuwing { regel: i + 1, inhoud: regels[i].clone() });
            },
            RegelUitkomst::Overgeslagen => {},
        }
        proof {
            let w = Wenslijst { items, waarschuwingen };
            assert(w.items_view() == items_van(na));
            assert(w.fouten_view() == fouten_van(na));
        }
        i = i + 1;
    }
    assert(regels@.subrange(0, regels@.len() as int) == regels@);
    Wenslijst { items, waarschuwingen }
}

/// The keyword and price field of a line as the wishlist editor shows them:
/// blank and `#` lines give nothing, nor does a line without `;`; the price
/// field is not checked.
pub open spec fn paar_van(l: Seq<char>) -> Option<(Seq<char>, Seq<char>)> {
    let t = getrimd(l);
    if t.len() == 0 || t[0] == '#' {
        None
    } else {
        let k = index_van(t, ';', 0);
        if k < 0 {
            None
        } else {
            Some((getrimd(t.subrange(0, k)), getrimd(t.subrange(k + 1, t.len() as int))))
        }
    }
}

/// The pairs that the lines `regels` give, in order.
pub open spec fn paren_van(regels: Seq<Seq<char>>) -> Seq<(Seq<char>, Seq<char>)>
    decreases regels.len(),
{
    if regels.len() == 0 {
        Seq::empty()
    } else {
        let voor = paren_van(regels.drop_last());
        match paar_van(regels.last()) {
            Some(p) => voor.push(p),
            None => voor,
        }
    }
}

fn als_tekst(v: &Vec<char>) -> (r: String)
    ensures
        r@ == v@,
{
    let r = crate::tekst::tekst_uit(v, 0, v.len());
    assert(v@.subrange(0, v@.len() as int) == v@);
    r
}

/// The keyword and price field of one line, as the wishlist editor shows them.
pub fn lees_paar(regel: &str) -> (r: Option<(String, String)>)
    ensures
        match r {
            Some(p) => paar_van(regel@) == Some((p.0@, p.1@)),
            None => paar_van(regel@) is None,
        },
{
    let v = tekens(regel);
    let t = trim(&v, 0, v.len());
    assert(v@.subrange(0, v@.len() as int) == v@);
    if t.len() == 0 || t[0] == '#' {
        return None;
    }
    let k = crate::tekst::zoek_teken(&t, ';', 0);
    if k == t.len() {
        return None;
    }
    let woord = trim(&t, 0, k);
    let prijs = trim(&t, k + 1, t.len());
    Some((als_tekst(&woord), als_tekst(&prijs)))
}

/// The keyword and price field of every entry line of a wishlist, in order.
pub fn wenslijst_paren(regels: &Vec<String>) -> (r: Vec<(String, String)>)
    ensures
        r@.map_values(|p: (String, String)| (p.0@, p.1@)) == paren_van(teksten(regels@)),
{
    let mut r: Vec<(String, String)> = Vec::new();
    let mut i: usize = 0;
    while i < regels.len()
        invariant
            i <= regels@.len(),
            r@.map_values(|p: (String, String)| (p.0@, p.1@)) == paren_van(
                teksten(regels@.subrange(0, i as int)),
            ),
        decreases regels.len() - i,
    {
        let ghost voor = teksten(regels@.subrange(0, i as int));
        let ghost na = teksten(regels@.subrange(0, i + 1));
        assert(na.drop_last() == voor);
        assert(na.last() == regels@[i as int]@);
        match lees_paar(regels[i].as_str()) {
            Some(p) => {
                r.push(p);
            },
            None => {},
        }
        assert(r@.map_values(|p: (String, String)| (p.0@, p.1@)) =~= paren_van(na));
        i = i + 1;
    }
    assert(regels@.subrange(0, regels@.len() as int) == regels@);
    r
}

/// The comment that heads a wishlist file.
pub open spec fn wenslijst_kop() -> Seq<char> {
    "# Wishlist\n# Format: keyword;maximum price\n# Lines starting with # are comments\n# For no maximum price, use -1\n# For free items only, use 0\n\n"@
}

/// The wishlist file for the given keyword and price fields.
pub open spec fn wenslijst_tekst(paren: Seq<(Seq<char>, Seq<char>)>) -> Seq<char>
    decreases paren.len(),
{
    if paren.len() == 0 {
        wenslijst_kop()
    } else {
        let p = paren.last();
        wenslijst_tekst(paren.drop_last()) + p.0 + ";"@ + p.1 + "\n"@
    }
}

/// Writes a wishlist file: the heading comment, then one `keyword;price` line
/// per entry.
pub fn schrijf_wenslijst(paren: &Vec<(String, String)>) -> (r: String)
    ensures
        r@ == wenslijst_tekst(paren@.map_values(|p: (String, String)| (p.0@, p.1@))),
{
    let mut r = String::from_str(
        "# Wishlist\n# Format: keyword;maximum price\n# Lines starting with # are comments\n# For no maximum price, use -1\n# For free items only, use 0\n\n",
    );
    let ghost alle = paren@.map_values(|p: (String, String)| (p.0@, p.1@));
    let mut i: usize = 0;
    assert(alle.subrange(0, 0) =~= Seq::<(Seq<char>, Seq<char>)>::empty());
    while i < paren.len()
        invariant
            i <= paren@.len(),
            alle == paren@.map_values(|p: (String, String)| (p.0@, p.1@)),
            r@ == wenslijst_tekst(alle.subrange(0, i as int)),
        decreases paren.len() - i,
    {
        assert(alle.subrange(0, i + 1).drop_last() =~= alle.subrange(0, i as int));
        r.append(paren[i].0.as_str());
        r.append(";");
        r.append(paren[i].1.as_str());
        r.append("\n");
        i = i + 1;
    }
    assert(alle.subrange(0, alle.len() as int) =~= alle);
    r
}

} // verus!
