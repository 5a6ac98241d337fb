//! The data the monitor works on: its configuration and the listings that a
//! search returns.
use vstd::prelude::*;

verus! {

/// Settings of the monitor.
pub struct Configuratie {
    pub postcode: String,
    pub afstand_km: u32,
    pub check_interval_seconden: u64,
    pub max_advertenties_per_zoekopdracht: u32,
    pub wenslijst_bestand: String,
    pub resultaten_bestand: String,
    pub api_key: Option<String>,
    pub toon_bieden: bool,
    pub toon_gratis: bool,
    pub toon_zie_beschrijving: bool,
    pub web_poort: u16,
    pub web_interface_aan: bool,
}

impl Default for Configuratie {
    fn default() -> (r: Configuratie)
        ensures
            r.postcode@ == "3032SG"@,
            r.afstand_km == 8,
            r.check_interval_seconden == 300,
            r.max_advertenties_per_zoekopdracht == 50,
            r.wenslijst_bestand@ == "wishlist.txt"@,
            r.resultaten_bestand@ == "results.txt"@,
            r.api_key is None,
            r.toon_bieden,
            r.toon_gratis,
            r.toon_zie_beschrijving,
            r.web_poort == 6600,
            r.web_interface_aan,
    {
        Configuratie {
            postcode: String::from_str("3032SG"),
            afstand_km: 8,
            check_interval_seconden: 300,
            max_advertenties_per_zoekopdracht: 50,
            wenslijst_bestand: String::from_str("wishlist.txt"),
            resultaten_bestand: String::from_str("results.txt"),
            api_key: None,
            toon_bieden: true,
            toon_gratis: true,
            toon_zie_beschrijving: true,
            web_poort: 6600,
            web_interface_aan: true,
        }
    }
}

/// Which kinds of price the user wants to see.
#[derive(Clone, Copy, Debug, PartialEq, Eq, Structural)]
pub struct Zichtbaarheid {
    /// Listings that ask for bids.
    pub toon_bieden: bool,
    /// Listings that are given away.
    pub toon_gratis: bool,
    /// Listings whose price is given only in words (see description, swap, ...).
    pub toon_zie_beschrijving: bool,
}

impl Configuratie {
    /// The visibility toggles of this configuration.
    pub fn zichtbaarheid(&self) -> (z: Zichtbaarheid)
        ensures
            z.toon_bieden == self.toon_bieden,
            z.toon_gratis == self.toon_gratis,
            z.toon_zie_beschrijving == self.toon_zie_beschrijving,
    {
        Zichtbaarheid {
            toon_bieden: self.toon_bieden,
            toon_gratis: self.toon_gratis,
            toon_zie_beschrijving: self.toon_zie_beschrijving,
        }
    }
}

/// The price of a listing: an amount in cents, or only a kind of price.
pub struct PrijsInfo {
    pub prijs_centen: Option<i32>,
    pub prijs_type: String,
}

/// Where a listing is offered.
pub struct Locatie {
    pub stad_naam: Option<String>,
    pub afstand_meters: Option<i32>,
}

/// One listing as the search returns it.
pub struct Advertentie {
    pub item_id: String,
    pub titel: String,
    pub beschrijving: Option<String>,
    pub prijs_info: PrijsInfo,
    pub locatie: Locatie,
    /// The path of the listing's page on the site.
    pub vip_url: String,
    pub afbeelding_urls: Option<Vec<String>>,
}

} // verus!
