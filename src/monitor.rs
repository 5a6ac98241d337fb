//! The monitor: which listings of a search are new matches, how a match is
//! written to the log, and the reset of what was reported.
use vstd::prelude::*;
use crate::codec::{codeer, codeer_record, decodeer, geen_afbeelding, LogRecord, LogRecordView};
use crate::codec_wetten::{
    lemma_heen_en_terug, lemma_samen_zonder, schrijfbaar, zonder_regeleinde, zonder_teken,
};
use crate::gezien::{links_van, GezienLijst};
use crate::model::{Advertentie, Configuratie, Zichtbaarheid};
use crate::prijs::{
    komt_overeen, prijs_komt_overeen, prijs_soort, prijs_tekst, prijs_weergave, soort_label,
    soort_tag, soort_van, MaxPrijs,
};
use crate::tekst::{
    cijfer, cijfer_teken, decimaal, decimaal_int, maak_plat, plat, schrijf_decimaal,
    schrijf_decimaal_int, tekens, tekst_uit, voeg_teken_toe,
};
use crate::wenslijst::WenslijstItem;

verus! {

/// The site that listing paths are relative to.
pub open spec fn basis_url() -> Seq<char> {
    "https://www.marktplaats.nl"@
}

/// The full link of a listing with path `pad`.
pub open spec fn volledige_url(pad: Seq<char>) -> Seq<char> {
    basis_url() + pad
}

/// The visibility toggles of a configuration.
pub open spec fn zichtbaarheid_van(c: Configuratie) -> Zichtbaarheid {
    Zichtbaarheid {
        toon_bieden: c.toon_bieden,
        toon_gratis: c.toon_gratis,
        toon_zie_beschrijving: c.toon_zie_beschrijving,
    }
}

/// Whether listing `a` fits ceiling `grens` under toggles `z`.
pub open spec fn past(a: Advertentie, grens: MaxPrijs, z: Zichtbaarheid) -> bool {
    komt_overeen(a.prijs_info.prijs_centen, soort_van(a.prijs_info.prijs_type@), grens, z)
}

/// Whether listing `a` is a new match: it fits and its link is not in `gezien`.
pub open spec fn is_treffer(
    gezien: Set<Seq<char>>,
    a: Advertentie,
    grens: MaxPrijs,
    z: Zichtbaarheid,
) -> bool {
    !gezien.contains(volledige_url(a.vip_url@)) && past(a, grens, z)
}

/// How a ceiling is written in the log.
pub open spec fn max_label(grens: MaxPrijs) -> Seq<char> {
    match grens {
        MaxPrijs::Onbeperkt => "unlimited"@,
        MaxPrijs::AlleenGratis => decimaal(0),
        MaxPrijs::Begrensd(n) => decimaal_int(n as int),
    }
}

/// A distance in meters written in kilometers with one decimal, rounded half
/// up: `3.2 km`.
pub open spec fn afstand_tekst(m: int) -> Seq<char> {
    let a = if m < 0 {
        -m
    } else {
        m
    };
    let tienden = (a + 50) / 100;
    let teken = if m < 0 && tienden > 0 {
        seq!['-']
    } else {
        Seq::<char>::empty()
    };
    teken + decimaal((tienden / 10) as nat) + seq!['.', cijfer(tienden % 10)] + " km"@
}

/// The description as the log holds it: on one line, at most 100
/// characters, and `...` after one that was cut.
pub open spec fn beschrijving_tekst(d: Option<String>) -> Seq<char> {
    match d {
        Some(d) => if d@.len() > 100 {
            plat(d@.subrange(0, 100)) + "..."@
        } else {
            plat(d@)
        },
        None => "No description"@,
    }
}

/// The first image of a listing, if it has one.
pub open spec fn eerste_afbeelding(urls: Option<Vec<String>>) -> Option<Seq<char>> {
    match urls {
        Some(v) => if v@.len() > 0 {
            Some(v@[0]@)
        } else {
            None
        },
        None => None,
    }
}

/// The record written for listing `a`, found for keyword `kw` under ceiling
/// `grens` at time `ts`.
pub open spec fn record_van(
    ts: Seq<char>,
    kw: Seq<char>,
    grens: MaxPrijs,
    a: Advertentie,
) -> LogRecordView {
    let soort = soort_van(a.prijs_info.prijs_type@);
    LogRecordView {
        tijdstempel: ts,
        zoekwoord: kw,
        max_prijs: max_label(grens),
        titel: plat(a.titel@),
        prijs: prijs_tekst(a.prijs_info.prijs_centen, soort) + soort_label(soort),
        locatie: match a.locatie.stad_naam {
            Some(s) => plat(s@),
            None => "Unknown"@,
        },
        afstand: match a.locatie.afstand_meters {
            Some(m) => afstand_tekst(m as int),
            None => "Unknown"@,
        },
        link: volledige_url(a.vip_url@),
        afbeelding: eerste_afbeelding(a.afbeelding_urls),
        beschrijving: beschrijving_tekst(a.beschrijving),
    }
}

/// A new match: its link, its record and the block that the log gets.
pub struct Treffer {
    pub url: String,
    pub record: LogRecord,
    pub blok: String,
}

/// Relies on `chrono::Local::now` and its `format`: the local time as
/// `YYYY-MM-DD HH:MM:SS`. Nothing is assumed of the value.
#[verifier::external_body]
fn tijdstempel_nu() -> (r: String) {
    chrono::Local::now().format("%Y-%m-%d %H:%M:%S").to_string()
}

/// Writes a ceiling as the log has it.
pub fn schrijf_max_label(grens: MaxPrijs) -> (r: String)
    ensures
        r@ == max_label(grens),
{
    match grens {
        MaxPrijs::Onbeperkt => String::from_str("unlimited"),
        MaxPrijs::AlleenGratis => {
            let mut s = String::new();
            schrijf_decimaal(&mut s, 0);
            assert(s@ =~= decimaal(0));
            s
        },
        MaxPrijs::Begrensd(n) => {
            let mut s = String::new();
            schrijf_decimaal_int(&mut s, n as i64);
            assert(s@ =~= decimaal_int(n as int));
            s
        },
    }
}

/// Writes a distance in meters as kilometers with one decimal.
pub fn formatteer_afstand(m: i32) -> (r: String)
    ensures
        r@ == afstand_tekst(m as int),
{
    let a: u64 = if m < 0 {
        (-(m as i64)) as u64
    } else {
        m as u64
    };
    let tienden = (a + 50) / 100;
    let mut s = String::new();
    if m < 0 && tienden > 0 {
        voeg_teken_toe(&mut s, '-');
    }
    schrijf_decimaal(&mut s, tienden / 10);
    voeg_teken_toe(&mut s, '.');
    voeg_teken_toe(&mut s, cijfer_teken(tienden % 10));
    s.append(" km");
    assert(s@ =~= afstand_tekst(m as int));
    s
}

/// The description as the log holds it.
pub fn formatteer_beschrijving(d: &Option<String>) -> (r: String)
    ensures
        r@ == beschrijving_tekst(*d),
{
    match d {
        Some(d) => {
            let v = tekens(d.as_str());
            if v.len() > 100 {
                let kort = tekst_uit(&v, 0, 100);
                let mut s = maak_plat(kort.as_str());
                s.append("...");
                s
            } else {
                maak_plat(d.as_str())
            }
        },
        None => String::from_str("No description"),
    }
}

/// The full link of a listing with path `pad`.
pub fn maak_url(pad: &str) -> (r: String)
    ensures
        r@ == volledige_url(pad@),
{
    let mut s = String::from_str("https://www.marktplaats.nl");
    s.append(pad);
    s
}

/// The record written for listing `a`, found for `item` at time `tijdstempel`.
pub fn maak_record(tijdstempel: &str, item: &WenslijstItem, a: &Advertentie) -> (r: LogRecord)
    ensures
        r@ == record_van(tijdstempel@, item.zoekwoord@, item.max_prijs, *a),
{
    let soort = prijs_soort(a.prijs_info.prijs_type.as_str());
    let mut prijs = prijs_weergave(&a.prijs_info);
    prijs.append(soort_tag(soort));
    let locatie = match &a.locatie.stad_naam {
        Some(s) => maak_plat(s.as_str()),
        None => String::from_str("Unknown"),
    };
    let afstand = match a.locatie.afstand_meters {
        Some(m) => formatteer_afstand(m),
        None => String::from_str("Unknown"),
    };
    let afbeelding = match &a.afbeelding_urls {
        Some(v) => if v.len() > 0 {
            Some(v[0].clone())
        } else {
            None
        },
        None => None,
    };
    LogRecord {
        tijdstempel: String::from_str(tijdstempel),
        zoekwoord: item.zoekwoord.clone(),
        max_prijs: schrijf_max_label(item.max_prijs),
        titel: maak_plat(a.titel.as_str()),
        prijs,
        locatie,
        afstand,
        link: maak_url(a.vip_url.as_str()),
        afbeelding,
        beschrijving: formatteer_beschrijving(&a.beschrijving),
    }
}

/// Watches the wishlist: holds the configuration and the links already
/// reported.
pub struct Monitor {
    pub configuratie: Configuratie,
    pub gezien_advertenties: GezienLijst,
}

impl Monitor {
    /// A monitor that starts from log `log`: every link in it counts as
    /// reported.
    pub fn nieuw(configuratie: Configuratie, log: &str) -> (r: Monitor)
        ensures
            r.configuratie == configuratie,
            r.gezien_advertenties@ == links_van(crate::codec::decodeer(log@)),
    {
        Monitor { configuratie, gezien_advertenties: GezienLijst::herbouw(log) }
    }

    /// Whether listing `advertentie` fits ceiling `max_prijs` under the
    /// configured toggles.
    pub fn advertentie_komt_overeen(&self, advertentie: &Advertentie, max_prijs: MaxPrijs) -> (r:
        bool)
        ensures
            r == past(*advertentie, max_prijs, zichtbaarheid_van(self.configuratie)),
    {
        prijs_komt_overeen(&advertentie.prijs_info, max_prijs, self.configuratie.zichtbaarheid())
    }

    /// The price of a listing as it is shown.
    pub fn formatteer_prijs(&self, advertentie: &Advertentie) -> (r: String)
        ensures
            r@ == prijs_tekst(
                advertentie.prijs_info.prijs_centen,
                soort_van(advertentie.prijs_info.prijs_type@),
            ),
    {
        prijs_weergave(&advertentie.prijs_info)
    }

    /// Decides on listing `a`, found for `item`, at time `tijdstempel`: a new
    /// match gives its link, record and log block; a listing already reported,
    /// or one that does not fit, gives nothing. Nothing is marked: the caller
    /// appends the block and then marks the link.
    pub fn beoordeel_advertentie_op(
        &self,
        item: &WenslijstItem,
        a: &Advertentie,
        tijdstempel: &str,
    ) -> (r: Option<Treffer>)
        ensures
            r is Some <==> is_treffer(
                self.gezien_advertenties@,
                *a,
                item.max_prijs,
                zichtbaarheid_van(self.configuratie),
            ),
            r is Some ==> r->0.url@ == volledige_url(a.vip_url@) && r->0.record@ == record_van(
                tijdstempel@,
                item.zoekwoord@,
                item.max_prijs,
                *a,
            ) && r->0.blok@ == codeer(r->0.record@),
    {
        let url = maak_url(a.vip_url.as_str());
        if self.gezien_advertenties.bevat(url.as_str()) {
            return None;
        }
        if !self.advertentie_komt_overeen(a, item.max_prijs) {
            return None;
        }
        let record = maak_record(tijdstempel, item, a);
        let blok = codeer_record(&record);
        Some(Treffer { url, record, blok })
    }

    /// As `beoordeel_advertentie_op`, stamped with the local time now.
    pub fn beoordeel_advertentie(&self, item: &WenslijstItem, a: &Advertentie) -> (r: Option<
        Treffer,
    >)
        ensures
            r is Some <==> is_treffer(
                self.gezien_advertenties@,
                *a,
                item.max_prijs,
                zichtbaarheid_van(self.configuratie),
            ),
            r is Some ==> r->0.url@ == volledige_url(a.vip_url@) && r->0.record@ == record_van(
                r->0.record.tijdstempel@,
                item.zoekwoord@,
                item.max_prijs,
                *a,
            ) && r->0.blok@ == codeer(r->0.record@),
    {
        let nu = tijdstempel_nu();
        self.beoordeel_advertentie_op(item, a, nu.as_str())
    }

    /// Marks a link as reported, once its block is in the log.
    pub fn markeer_gezien(&mut self, url: String)
        ensures
            final(self).configuratie == old(self).configuratie,
            final(self).gezien_advertenties@ == old(self).gezien_advertenties@.insert(url@),
    {
        self.gezien_advertenties.markeer(url);
    }

    /// Forgets every reported link; the caller empties the log.
    pub fn wis_resultaten(&mut self)
        ensures
            final(self).configuratie == old(self).configuratie,
            final(self).gezien_advertenties@ == Set::<Seq<char>>::empty(),
    {
        self.gezien_advertenties.wis();
    }
}

/// A listing whose link was marked gives no new match, whatever the entry and
/// toggles: a second cycle over the same listing writes nothing and counts
/// nothing.
pub proof fn lemma_gezien_geeft_niets(
    gezien: Set<Seq<char>>,
    a: Advertentie,
    grens: MaxPrijs,
    z: Zichtbaarheid,
)
    ensures
        !is_treffer(gezien.insert(volledige_url(a.vip_url@)), a, grens, z),
{
}

/// After a reset the log reads as empty, and every listing that fits is a
/// new match again.
pub proof fn lemma_na_wissen(a: Advertentie, grens: MaxPrijs, z: Zichtbaarheid)
    ensures
        crate::codec::decodeer(Seq::<char>::empty()) == Seq::<LogRecordView>::empty(),
        is_treffer(Set::<Seq<char>>::empty(), a, grens, z) == past(a, grens, z),
{
    reveal_strlit("============================================================");
    assert(crate::codec::streep().len() == 60);
    assert(Seq::<char>::empty().subrange(0, 0) =~= Seq::<char>::empty());
}

/// Whether `s` holds no newline, quote or opening parenthesis.
pub open spec fn veilig(s: Seq<char>) -> bool {
    forall|i: int| 0 <= i < s.len() ==> s[i] != '\n' && s[i] != '\'' && s[i] != '('
}

proof fn lemma_samen_veilig(a: Seq<char>, b: Seq<char>)
    requires
        veilig(a),
        veilig(b),
    ensures
        veilig(a + b),
{
    assert forall|i: int| 0 <= i < (a + b).len() implies (a + b)[i] != '\n' && (a + b)[i] != '\''
        && (a + b)[i] != '(' by {
        if i < a.len() {
            assert((a + b)[i] == a[i]);
        } else {
            assert((a + b)[i] == b[i - a.len()]);
        }
    }
}

proof fn lemma_veilig_zonder(s: Seq<char>)
    requires
        veilig(s),
    ensures
        zonder_regeleinde(s),
        zonder_teken(s, '\''),
        forall|i: int| !crate::tekst::open_haakje_op(s, i),
{
    assert forall|i: int| !crate::tekst::open_haakje_op(s, i) by {
        if 0 <= i && i + 1 < s.len() {
            assert(s[i + 1] != '(');
        }
    }
}

proof fn lemma_cijfer_veilig(d: int)
    ensures
        veilig(seq![cijfer(d)]),
{
    assert(seq![cijfer(d)][0] == cijfer(d));
}

proof fn lemma_decimaal_veilig(n: nat)
    ensures
        veilig(decimaal(n)),
    decreases n,
{
    lemma_cijfer_veilig(n as int % 10);
    if n < 10 {
        lemma_cijfer_veilig(n as int);
    } else {
        lemma_decimaal_veilig(n / 10);
        assert(decimaal(n) =~= decimaal(n / 10) + seq![cijfer((n % 10) as int)]);
        lemma_samen_veilig(decimaal(n / 10), seq![cijfer((n % 10) as int)]);
    }
}

proof fn lemma_plat_zonder(s: Seq<char>)
    ensures
        zonder_regeleinde(plat(s)),
{
    assert forall|i: int| 0 <= i < plat(s).len() implies plat(s)[i] != '\n' by {
        assert(plat(s)[i] == crate::tekst::plat_teken(s[i]));
    }
}

proof fn lemma_bedrag_veilig(c: int)
    ensures
        veilig(crate::prijs::bedrag(c)),
{
    let a = if c < 0 {
        -c
    } else {
        c
    };
    let teken = if c < 0 {
        seq!['-']
    } else {
        Seq::<char>::empty()
    };
    assert(veilig(teken)) by {
        if c < 0 {
            assert(seq!['-'][0] == '-');
        }
    }
    lemma_decimaal_veilig((a / 100) as nat);
    let staart = seq!['.', cijfer((a % 100) / 10), cijfer(a % 10)];
    assert(veilig(staart)) by {
        assert(staart[1] == cijfer((a % 100) / 10));
        assert(staart[2] == cijfer(a % 10));
    }
    lemma_samen_veilig(teken, decimaal((a / 100) as nat));
    lemma_samen_veilig(teken + decimaal((a / 100) as nat), staart);
}

proof fn lemma_afstand_veilig(m: int)
    ensures
        veilig(afstand_tekst(m)),
{
    reveal_strlit(" km");
    let a = if m < 0 {
        -m
    } else {
        m
    };
    let tienden = (a + 50) / 100;
    let teken = if m < 0 && tienden > 0 {
        seq!['-']
    } else {
        Seq::<char>::empty()
    };
    assert(veilig(teken)) by {
        if m < 0 && tienden > 0 {
            assert(seq!['-'][0] == '-');
        }
    }
    lemma_decimaal_veilig((tienden / 10) as nat);
    let staart = seq!['.', cijfer(tienden % 10)];
    assert(veilig(staart)) by {
        assert(staart[1] == cijfer(tienden % 10));
    }
    assert(veilig(" km"@));
    lemma_samen_veilig(teken, decimaal((tienden / 10) as nat));
    lemma_samen_veilig(teken + decimaal((tienden / 10) as nat), staart);
    lemma_samen_veilig(teken + decimaal((tienden / 10) as nat) + staart, " km"@);
}

proof fn lemma_max_label_veilig(grens: MaxPrijs)
    ensures
        veilig(max_label(grens)),
{
    reveal_strlit("unlimited");
    match grens {
        MaxPrijs::Onbeperkt => {},
        MaxPrijs::AlleenGratis => {
            lemma_decimaal_veilig(0);
        },
        MaxPrijs::Begrensd(n) => {
            if n < 0 {
                lemma_decimaal_veilig((-n) as nat);
                assert(veilig(seq!['-'])) by {
                    assert(seq!['-'][0] == '-');
                }
                lemma_samen_veilig(seq!['-'], decimaal((-n) as nat));
            } else {
                lemma_decimaal_veilig(n as nat);
            }
        },
    }
}

proof fn lemma_prijs_zonder(centen: Option<i32>, soort: crate::prijs::PrijsSoort)
    ensures
        zonder_regeleinde(prijs_tekst(centen, soort) + soort_label(soort)),
{
    reveal_strlit("Free");
    reveal_strlit("€");
    reveal_strlit("Bid");
    reveal_strlit("See description");
    reveal_strlit("Reserved");
    reveal_strlit("Negotiable");
    reveal_strlit("Minimum bid");
    reveal_strlit("Swap");
    reveal_strlit("See description/other");
    reveal_strlit(" [BID]");
    reveal_strlit(" [FREE]");
    reveal_strlit(" [RESERVED]");
    reveal_strlit(" [NEGOTIABLE]");
    reveal_strlit(" [MIN. BID]");
    reveal_strlit(" [SWAP]");
    reveal_strlit("");
    match centen {
        Some(c) => {
            if c != 0 {
                lemma_bedrag_veilig(c as int);
                lemma_veilig_zonder(crate::prijs::bedrag(c as int));
                lemma_samen_zonder("€"@, crate::prijs::bedrag(c as int));
            }
        },
        None => {},
    }
    lemma_samen_zonder(prijs_tekst(centen, soort), soort_label(soort));
}

/// The block written for a new match reads back as the record it was written
/// from, whatever the listing's title, description and city hold: line
/// breaks in them are written as spaces. It takes a time stamp without newline
/// or `]`, a keyword, path and first image without newline, and an image that
/// is not the word `none`.
pub proof fn lemma_treffer_leesbaar(ts: Seq<char>, kw: Seq<char>, grens: MaxPrijs, a: Advertentie)
    requires
        zonder_regeleinde(ts),
        zonder_teken(ts, ']'),
        zonder_regeleinde(kw),
        zonder_regeleinde(a.vip_url@),
        match eerste_afbeelding(a.afbeelding_urls) {
            Some(u) => zonder_regeleinde(u) && u != geen_afbeelding(),
            None => true,
        },
    ensures
        decodeer(codeer(record_van(ts, kw, grens, a))) == seq![record_van(ts, kw, grens, a)],
{
    reveal_strlit("Unknown");
    reveal_strlit("https://www.marktplaats.nl");
    reveal_strlit("...");
    reveal_strlit("No description");
    let r = record_van(ts, kw, grens, a);
    lemma_max_label_veilig(grens);
    lemma_veilig_zonder(max_label(grens));
    lemma_plat_zonder(a.titel@);
    lemma_prijs_zonder(a.prijs_info.prijs_centen, soort_van(a.prijs_info.prijs_type@));
    match a.locatie.stad_naam {
        Some(s) => lemma_plat_zonder(s@),
        None => {},
    }
    match a.locatie.afstand_meters {
        Some(m) => {
            lemma_afstand_veilig(m as int);
            lemma_veilig_zonder(afstand_tekst(m as int));
        },
        None => {
            assert(veilig("Unknown"@));
            lemma_veilig_zonder("Unknown"@);
        },
    }
    lemma_samen_zonder(basis_url(), a.vip_url@);
    match a.beschrijving {
        Some(d) => {
            if d@.len() > 100 {
                lemma_plat_zonder(d@.subrange(0, 100));
                lemma_samen_zonder(plat(d@.subrange(0, 100)), "..."@);
            } else {
                lemma_plat_zonder(d@);
            }
        },
        None => {},
    }
    assert(schrijfbaar(r));
    lemma_heen_en_terug(r);
}

} // verus!
