use marktplaats_monitor::codec::{codeer_record, decodeer_log, LogRecord};
use marktplaats_monitor::gezien::GezienLijst;
use marktplaats_monitor::model::{Advertentie, Configuratie, Locatie, PrijsInfo, Zichtbaarheid};
use marktplaats_monitor::monitor::{formatteer_afstand, formatteer_beschrijving, maak_record, Monitor};
use marktplaats_monitor::prijs::{prijs_komt_overeen, prijs_soort, prijs_weergave, MaxPrijs, PrijsSoort};
use marktplaats_monitor::resultaten::haal_resultaten;
use marktplaats_monitor::wenslijst::{
    parseer_regel, parseer_wenslijst, schrijf_wenslijst, wenslijst_paren, RegelUitkomst,
    WenslijstItem,
};
use marktplaats_monitor::zoeken::{kies_user_agent, user_agent, zoek_adres_met};

fn prijs(centen: Option<i32>, soort: &str) -> PrijsInfo {
    PrijsInfo { prijs_centen: centen, prijs_type: soort.to_string() }
}

fn alles_aan() -> Zichtbaarheid {
    Zichtbaarheid { toon_bieden: true, toon_gratis: true, toon_zie_beschrijving: true }
}

fn advertentie(pad: &str, titel: &str, centen: Option<i32>, soort: &str) -> Advertentie {
    Advertentie {
        item_id: "m1".to_string(),
        titel: titel.to_string(),
        beschrijving: Some("Works well".to_string()),
        prijs_info: prijs(centen, soort),
        locatie: Locatie { stad_naam: Some("Utrecht".to_string()), afstand_meters: Some(3250) },
        vip_url: pad.to_string(),
        afbeelding_urls: Some(vec!["https://img/1.jpg".to_string(), "https://img/2.jpg".to_string()]),
    }
}

fn item(kw: &str, max: MaxPrijs) -> WenslijstItem {
    WenslijstItem { zoekwoord: kw.to_string(), max_prijs: max }
}

fn record(ts: &str, kw: &str, titel: &str, link: &str, beschrijving: &str) -> LogRecord {
    LogRecord {
        tijdstempel: ts.to_string(),
        zoekwoord: kw.to_string(),
        max_prijs: "150".to_string(),
        titel: titel.to_string(),
        prijs: "€120.00".to_string(),
        locatie: "Den Haag".to_string(),
        afstand: "3.2 km".to_string(),
        link: link.to_string(),
        afbeelding: None,
        beschrijving: beschrijving.to_string(),
    }
}

fn zelfde(a: &LogRecord, b: &LogRecord) -> bool {
    a.tijdstempel == b.tijdstempel
        && a.zoekwoord == b.zoekwoord
        && a.max_prijs == b.max_prijs
        && a.titel == b.titel
        && a.prijs == b.prijs
        && a.locatie == b.locatie
        && a.afstand == b.afstand
        && a.link == b.link
        && a.afbeelding == b.afbeelding
        && a.beschrijving == b.beschrijving
}

#[test]
fn prijs_nul_zonder_gratis_is_geen_treffer() {
    let z = Zichtbaarheid { toon_bieden: true, toon_gratis: false, toon_zie_beschrijving: true };
    assert!(!prijs_komt_overeen(&prijs(Some(0), "FIXED"), MaxPrijs::Onbeperkt, z));
}

#[test]
fn prijs_nul_met_gratis_is_treffer() {
    assert!(prijs_komt_overeen(&prijs(Some(0), "FIXED"), MaxPrijs::AlleenGratis, alles_aan()));
    assert!(prijs_komt_overeen(&prijs(Some(0), "FIXED"), MaxPrijs::Begrensd(1), alles_aan()));
}

#[test]
fn prijs_boven_grens() {
    assert!(!prijs_komt_overeen(&prijs(Some(15000), "FIXED"), MaxPrijs::Begrensd(100), alles_aan()));
}

#[test]
fn prijs_onder_en_op_grens() {
    assert!(prijs_komt_overeen(&prijs(Some(5000), "FIXED"), MaxPrijs::Begrensd(100), alles_aan()));
    assert!(prijs_komt_overeen(&prijs(Some(10000), "FIXED"), MaxPrijs::Begrensd(100), alles_aan()));
    assert!(!prijs_komt_overeen(&prijs(Some(10001), "FIXED"), MaxPrijs::Begrensd(100), alles_aan()));
}

#[test]
fn prijs_met_bedrag_en_alleen_gratis() {
    assert!(!prijs_komt_overeen(&prijs(Some(100), "FIXED"), MaxPrijs::AlleenGratis, alles_aan()));
    assert!(prijs_komt_overeen(&prijs(Some(99999999), "FIXED"), MaxPrijs::Onbeperkt, alles_aan()));
}

#[test]
fn bieden_zonder_toon_bieden() {
    let z = Zichtbaarheid { toon_bieden: false, toon_gratis: true, toon_zie_beschrijving: true };
    for g in [MaxPrijs::Onbeperkt, MaxPrijs::AlleenGratis, MaxPrijs::Begrensd(100)] {
        assert!(!prijs_komt_overeen(&prijs(None, "BID"), g, z));
    }
}

#[test]
fn bieden_met_alleen_gratis() {
    assert!(!prijs_komt_overeen(&prijs(None, "BID"), MaxPrijs::AlleenGratis, alles_aan()));
    assert!(prijs_komt_overeen(&prijs(None, "BID"), MaxPrijs::Begrensd(5), alles_aan()));
}

#[test]
fn ruilen_onbeperkt_is_treffer() {
    assert!(prijs_komt_overeen(&prijs(None, "SWAP"), MaxPrijs::Onbeperkt, alles_aan()));
    let z = Zichtbaarheid { toon_bieden: true, toon_gratis: true, toon_zie_beschrijving: false };
    assert!(!prijs_komt_overeen(&prijs(None, "SWAP"), MaxPrijs::Onbeperkt, z));
    assert!(!prijs_komt_overeen(&prijs(None, "SWAP"), MaxPrijs::AlleenGratis, alles_aan()));
}

#[test]
fn gratis_soort_volgt_toon_gratis() {
    assert!(prijs_komt_overeen(&prijs(None, "FREE"), MaxPrijs::AlleenGratis, alles_aan()));
    let z = Zichtbaarheid { toon_bieden: true, toon_gratis: false, toon_zie_beschrijving: true };
    assert!(!prijs_komt_overeen(&prijs(None, "FREE"), MaxPrijs::Onbeperkt, z));
}

#[test]
fn prijs_soorten() {
    assert_eq!(prijs_soort("BID"), PrijsSoort::Bieden);
    assert_eq!(prijs_soort("NOTK"), PrijsSoort::NaderOverTeKomen);
    assert_eq!(prijs_soort("MIN_BID"), PrijsSoort::Minimumbod);
    assert_eq!(prijs_soort("bid"), PrijsSoort::Anders);
    assert_eq!(prijs_soort(""), PrijsSoort::Anders);
}

#[test]
fn prijs_weergaven() {
    assert_eq!(prijs_weergave(&prijs(Some(0), "FIXED")), "Free");
    assert_eq!(prijs_weergave(&prijs(Some(12050), "FIXED")), "€120.50");
    assert_eq!(prijs_weergave(&prijs(Some(5), "FIXED")), "€0.05");
    assert_eq!(prijs_weergave(&prijs(Some(-150), "FIXED")), "€-1.50");
    assert_eq!(prijs_weergave(&prijs(None, "BID")), "Bid");
    assert_eq!(prijs_weergave(&prijs(None, "NOTK")), "Negotiable");
    assert_eq!(prijs_weergave(&prijs(None, "WEIRD")), "See description/other");
}

#[test]
fn wenslijst_regels() {
    assert!(matches!(parseer_regel("foo;-1"), RegelUitkomst::Item(WenslijstItem { max_prijs: MaxPrijs::Onbeperkt, .. })));
    assert!(matches!(parseer_regel("bar;0"), RegelUitkomst::Item(WenslijstItem { max_prijs: MaxPrijs::AlleenGratis, .. })));
    assert!(matches!(parseer_regel("baz;oops"), RegelUitkomst::Ongeldig));
    assert!(matches!(parseer_regel("# comment"), RegelUitkomst::Overgeslagen));
    assert!(matches!(parseer_regel(""), RegelUitkomst::Overgeslagen));
    assert!(matches!(parseer_regel("   "), RegelUitkomst::Overgeslagen));
}

#[test]
fn wenslijst_randgevallen() {
    match parseer_regel("  rx 6600 ; +150 ") {
        RegelUitkomst::Item(it) => {
            assert_eq!(it.zoekwoord, "rx 6600");
            assert_eq!(it.max_prijs, MaxPrijs::Begrensd(150));
        }
        _ => panic!("expected an entry"),
    }
    assert!(matches!(parseer_regel("geen puntkomma"), RegelUitkomst::Ongeldig));
    assert!(matches!(parseer_regel("a;-2"), RegelUitkomst::Ongeldig));
    assert!(matches!(parseer_regel(";5"), RegelUitkomst::Ongeldig));
    assert!(matches!(parseer_regel("a;2147483648"), RegelUitkomst::Ongeldig));
    assert!(matches!(parseer_regel("a;2147483647"), RegelUitkomst::Item(WenslijstItem { max_prijs: MaxPrijs::Begrensd(2147483647), .. })));
    assert!(matches!(parseer_regel("a;1;2"), RegelUitkomst::Ongeldig));
    assert!(matches!(parseer_regel("a;"), RegelUitkomst::Ongeldig));
}

#[test]
fn wenslijst_geheel() {
    let regels: Vec<String> = ["# list", "", "foo;-1", "bar;0", "baz;oops", "foo;20"]
        .iter()
        .map(|s| s.to_string())
        .collect();
    let w = parseer_wenslijst(&regels);
    assert_eq!(w.items.len(), 3);
    assert_eq!(w.items[0].zoekwoord, "foo");
    assert_eq!(w.items[0].max_prijs, MaxPrijs::Onbeperkt);
    assert_eq!(w.items[1].zoekwoord, "bar");
    assert_eq!(w.items[1].max_prijs, MaxPrijs::AlleenGratis);
    assert_eq!(w.items[2].max_prijs, MaxPrijs::Begrensd(20));
    assert_eq!(w.waarschuwingen.len(), 1);
    assert_eq!(w.waarschuwingen[0].regel, 5);
    assert_eq!(w.waarschuwingen[0].inhoud, "baz;oops");
}

#[test]
fn wenslijst_bewerken() {
    let regels: Vec<String> = ["# x", "bike ; 50", "nothing here", "lamp;-1"]
        .iter()
        .map(|s| s.to_string())
        .collect();
    let paren = wenslijst_paren(&regels);
    assert_eq!(paren, vec![("bike".to_string(), "50".to_string()), ("lamp".to_string(), "-1".to_string())]);
    let tekst = schrijf_wenslijst(&paren);
    assert!(tekst.starts_with("# "));
    assert!(tekst.ends_with("bike;50\nlamp;-1\n"));
    let opnieuw: Vec<String> = tekst.lines().map(|s| s.to_string()).collect();
    let w = parseer_wenslijst(&opnieuw);
    assert_eq!(w.items.len(), 2);
    assert!(w.waarschuwingen.is_empty());
}

#[test]
fn codeer_exact() {
    let r = record("2025-01-31 12:00:00", "bike", "City bike", "https://www.marktplaats.nl/v/1", "Nearly new.");
    let blok = codeer_record(&r);
    let verwacht = format!(
        "[2025-01-31 12:00:00] Found: 'bike' (max €150)\n  Title: City bike\n  Price: €120.00\n  Location: Den Haag (3.2 km)\n  Link: https://www.marktplaats.nl/v/1\n  Image: none\n  Description: Nearly new.\n{}\n\n",
        "=".repeat(60)
    );
    assert_eq!(blok, verwacht);
}

#[test]
fn heen_en_terug() {
    let mut r = record("2025-01-31 12:00:00", "it's (max €5) tricky", "[x] Found: inside", "https://www.marktplaats.nl/v/1", "desc with  Title: label");
    r.afbeelding = Some("https://img/a.jpg".to_string());
    r.locatie = "Bergen (NH)".to_string();
    let blok = codeer_record(&r);
    let terug = decodeer_log(&blok);
    assert_eq!(terug.len(), 1);
    assert!(zelfde(&terug[0], &r));
}

#[test]
fn log_van_twee_records() {
    let a = record("t1", "bike", "A", "L1", "d1");
    let b = record("t2", "lamp", "B", "L2", "d2");
    let log = format!("Header line\n\n{}{}", codeer_record(&a), codeer_record(&b));
    let terug = decodeer_log(&log);
    assert_eq!(terug.len(), 2);
    assert!(zelfde(&terug[0], &a));
    assert!(zelfde(&terug[1], &b));
}

#[test]
fn afgebroken_laatste_record() {
    let a = record("t1", "bike", "A", "L1", "d1");
    let b = record("t2", "lamp", "B", "L2", "d2");
    let blok_b = codeer_record(&b);
    let snede = blok_b.find("  Link:").unwrap() + 4;
    let log = format!("{}{}", codeer_record(&a), &blok_b[..snede]);
    let terug = decodeer_log(&log);
    assert_eq!(terug.len(), 1);
    assert!(zelfde(&terug[0], &a));
    let zonder_streep = format!("{}{}", codeer_record(&a), &blok_b[..blok_b.find("=====").unwrap() + 10]);
    assert_eq!(decodeer_log(&zonder_streep).len(), 1);
    assert_eq!(decodeer_log("").len(), 0);
    assert_eq!(decodeer_log("garbage\nmore ===\n").len(), 0);
}

#[test]
fn herbouw_twee_keer() {
    let log = format!(
        "{}{}",
        codeer_record(&record("t1", "bike", "A", "L1", "d1")),
        codeer_record(&record("t2", "bike", "B", "L1", "d2"))
    );
    let mut g = GezienLijst::herbouw(&log);
    assert!(g.bevat("L1"));
    assert!(!g.bevat("L2"));
    g.voeg_log_toe(&log);
    assert!(g.bevat("L1"));
    assert!(!g.bevat("L2"));
    assert!(!g.bevat("t1"));
}

#[test]
fn afstand_en_beschrijving() {
    assert_eq!(formatteer_afstand(3250), "3.3 km");
    assert_eq!(formatteer_afstand(3249), "3.2 km");
    assert_eq!(formatteer_afstand(0), "0.0 km");
    assert_eq!(formatteer_afstand(12345), "12.3 km");
    assert_eq!(formatteer_afstand(-20), "0.0 km");
    assert_eq!(formatteer_afstand(-1500), "-1.5 km");
    let lang: String = "é".repeat(101);
    let kort = formatteer_beschrijving(&Some(lang));
    assert_eq!(kort.chars().count(), 103);
    assert!(kort.ends_with("é..."));
    assert_eq!(formatteer_beschrijving(&Some("é".repeat(100))), "é".repeat(100));
    assert_eq!(formatteer_beschrijving(&None), "No description");
}

#[test]
fn record_van_advertentie() {
    let a = advertentie("/v/fietsen/m1", "Gazelle", Some(12000), "BID");
    let r = maak_record("2025-02-01 08:00:00", &item("fiets", MaxPrijs::Begrensd(150)), &a);
    assert_eq!(r.max_prijs, "150");
    assert_eq!(r.prijs, "€120.00 [BID]");
    assert_eq!(r.locatie, "Utrecht");
    assert_eq!(r.afstand, "3.3 km");
    assert_eq!(r.link, "https://www.marktplaats.nl/v/fietsen/m1");
    assert_eq!(r.afbeelding, Some("https://img/1.jpg".to_string()));
    assert_eq!(r.beschrijving, "Works well");
    let r2 = maak_record("t", &item("fiets", MaxPrijs::Onbeperkt), &Advertentie {
        locatie: Locatie { stad_naam: None, afstand_meters: None },
        afbeelding_urls: Some(vec![]),
        beschrijving: None,
        ..advertentie("/v/2", "X", None, "SWAP")
    });
    assert_eq!(r2.max_prijs, "unlimited");
    assert_eq!(r2.prijs, "Swap [SWAP]");
    assert_eq!(r2.locatie, "Unknown");
    assert_eq!(r2.afstand, "Unknown");
    assert_eq!(r2.afbeelding, None);
    assert_eq!(r2.beschrijving, "No description");
    let r3 = maak_record("t", &item("x", MaxPrijs::AlleenGratis), &advertentie("/v/3", "X", Some(0), "FREE"));
    assert_eq!(r3.max_prijs, "0");
    assert_eq!(r3.prijs, "Free [FREE]");
}

#[test]
fn geen_dubbele_melding() {
    let mut m = Monitor::nieuw(Configuratie::default(), "");
    let it = item("fiets", MaxPrijs::Begrensd(150));
    let a = advertentie("/v/1", "Gazelle", Some(5000), "FIXED");
    let mut nieuw_aantal = 0;
    let mut log = String::new();
    for _cyclus in 0..2 {
        if let Some(t) = m.beoordeel_advertentie_op(&it, &a, "2025-01-01 10:00:00") {
            log.push_str(&t.blok);
            m.markeer_gezien(t.url);
            nieuw_aantal += 1;
        }
    }
    assert_eq!(nieuw_aantal, 1);
    assert_eq!(decodeer_log(&log).len(), 1);
    let herstart = Monitor::nieuw(Configuratie::default(), &log);
    assert!(herstart.beoordeel_advertentie_op(&it, &a, "later").is_none());
}

#[test]
fn beoordeel_met_klok() {
    let m = Monitor::nieuw(Configuratie::default(), "");
    let t = m.beoordeel_advertentie(&item("fiets", MaxPrijs::Onbeperkt), &advertentie("/v/9", "A", Some(100), "FIXED")).unwrap();
    assert_eq!(t.record.tijdstempel.chars().count(), 19);
    let terug = decodeer_log(&t.blok);
    assert_eq!(terug.len(), 1);
    assert_eq!(terug[0].link, "https://www.marktplaats.nl/v/9");
    assert!(m.beoordeel_advertentie(&item("fiets", MaxPrijs::Begrensd(0)), &advertentie("/v/9", "A", Some(100), "FIXED")).is_none());
}

#[test]
fn wissen_maakt_weer_vindbaar() {
    let a = advertentie("/v/1", "Gazelle", Some(5000), "FIXED");
    let it = item("fiets", MaxPrijs::Begrensd(150));
    let log = codeer_record(&maak_record("t", &it, &a));
    let mut m = Monitor::nieuw(Configuratie::default(), &log);
    assert!(m.beoordeel_advertentie_op(&it, &a, "t").is_none());
    m.wis_resultaten();
    assert!(haal_resultaten("", &None).is_empty());
    assert!(m.beoordeel_advertentie_op(&it, &a, "t").is_some());
}

#[test]
fn resultaten_nieuwste_eerst_en_filter() {
    let log = format!(
        "{}{}{}",
        codeer_record(&record("t1", "fiets", "Gazelle BIKE", "L1", "blue")),
        codeer_record(&record("t2", "lamp", "Desk lamp", "L2", "Bright LIGHT")),
        codeer_record(&record("t3", "stoel", "Chair", "L3", "wood"))
    );
    let alle = haal_resultaten(&log, &None);
    let links: Vec<&str> = alle.iter().map(|r| r.link.as_str()).collect();
    assert_eq!(links, vec!["L3", "L2", "L1"]);
    let licht = haal_resultaten(&log, &Some("light".to_string()));
    assert_eq!(licht.len(), 1);
    assert_eq!(licht[0].link, "L2");
    let fiets = haal_resultaten(&log, &Some("Bike".to_string()));
    assert_eq!(fiets.len(), 1);
    assert_eq!(fiets[0].link, "L1");
    let stoel = haal_resultaten(&log, &Some("STOEL".to_string()));
    assert_eq!(stoel.len(), 1);
    assert_eq!(stoel[0].link, "L3");
    assert!(haal_resultaten(&log, &Some("xyz".to_string())).is_empty());
}

#[test]
fn zoek_adres() {
    let c = Configuratie::default();
    let url = zoek_adres_met(&c, "steam%20deck", MaxPrijs::Begrensd(150));
    assert_eq!(url, "https://www.marktplaats.nl/lrp/api/search?limit=50&offset=0&postcode=3032SG&distanceMeters=8000&priceFrom=0&priceTo=15000&query=steam%20deck");
    let onbeperkt = zoek_adres_met(&c, "x", MaxPrijs::Onbeperkt);
    assert!(onbeperkt.contains("&priceTo=9223372036854775807&"));
    let gratis = zoek_adres_met(&c, "x", MaxPrijs::AlleenGratis);
    assert!(gratis.contains("&priceTo=0&"));
}

#[test]
fn zoek_verzoek_codeert_zoekwoord() {
    let mut c = Configuratie::default();
    c.api_key = Some("SECRET-REDACTED".to_string());
    let m = Monitor::nieuw(c, "");
    let v = m.zoek_verzoek("steam deck & co", MaxPrijs::Onbeperkt);
    assert!(v.url.ends_with("&query=steam%20deck%20%26%20co"));
    assert!(v.user_agent.starts_with("Mozilla/5.0 ("));
    assert_eq!(v.api_key, Some("SECRET-REDACTED".to_string()));
    let ua = kies_user_agent();
    assert!((0..20).any(|i| user_agent(i) == ua));
}

#[test]
fn standaard_configuratie() {
    let c = Configuratie::default();
    assert_eq!(c.postcode, "3032SG");
    assert_eq!(c.afstand_km, 8);
    assert_eq!(c.check_interval_seconden, 300);
    assert_eq!(c.resultaten_bestand, "results.txt");
    assert_eq!(c.web_poort, 6600);
    assert!(c.api_key.is_none());
    let z = c.zichtbaarheid();
    assert!(z.toon_bieden && z.toon_gratis && z.toon_zie_beschrijving);
}

#[test]
fn regeleinden_worden_spaties() {
    let mut a = advertentie("/v/7", "Fiets\nmet bel", Some(100), "FIXED");
    a.beschrijving = Some("eerste regel\r\n[2025] Found: 'x' (max €1)\n  Link: nep".to_string());
    let r = maak_record("2025-03-01 09:00:00", &item("fiets", MaxPrijs::Onbeperkt), &a);
    assert_eq!(r.titel, "Fiets met bel");
    assert_eq!(r.beschrijving, "eerste regel  [2025] Found: 'x' (max €1)   Link: nep");
    let terug = decodeer_log(&codeer_record(&r));
    assert_eq!(terug.len(), 1);
    assert!(zelfde(&terug[0], &r));
}

#[test]
fn monitor_prijs_en_overeenkomst() {
    let mut c = Configuratie::default();
    c.toon_bieden = false;
    let m = Monitor::nieuw(c, "");
    assert_eq!(m.formatteer_prijs(&advertentie("/v/1", "A", Some(150000), "FIXED")), "€1500.00");
    assert_eq!(m.formatteer_prijs(&advertentie("/v/1", "A", None, "RESERVED")), "Reserved");
    assert!(!m.advertentie_komt_overeen(&advertentie("/v/1", "A", None, "BID"), MaxPrijs::Onbeperkt));
    assert!(m.advertentie_komt_overeen(&advertentie("/v/1", "A", None, "SWAP"), MaxPrijs::Onbeperkt));
    assert!(m.advertentie_komt_overeen(&advertentie("/v/1", "A", Some(10000), "FIXED"), MaxPrijs::Begrensd(100)));
}
