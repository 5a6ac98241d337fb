//! The request that a search for one wishlist entry sends.
use vstd::prelude::*;
use crate::model::Configuratie;
use crate::monitor::Monitor;
use crate::prijs::MaxPrijs;
use crate::tekst::{decimaal, decimaal_int, schrijf_decimaal, schrijf_decimaal_int};

verus! {

/// What `urlencoding::encode` makes of a text.
pub uninterp spec fn url_gecodeerd(s: Seq<char>) -> Seq<char>;

/// Relies on `urlencoding::encode`: percent-encodes every byte of the UTF-8
/// text but ASCII letters, digits and `-`, `_`, `.`, `~`; the result depends
/// on the text alone.
#[verifier::external_body]
fn url_codeer(s: &str) -> (r: String)
    ensures
        r@ == url_gecodeerd(s@),
{
    urlencoding::encode(s).into_owned()
}

/// Relies on `fastrand::usize`: a number drawn from `0..n`.
#[verifier::external_body]
fn willekeurige_index(n: usize) -> (r: usize)
    requires
        n > 0,
    ensures
        r < n,
{
    fastrand::usize(..n)
}

/// The browser names that a request may present.
pub open spec fn user_agents() -> Seq<Seq<char>> {
    seq![
        "Mozilla/5.0 (Windows NT 10.0; Win64; x64) AppleWebKit/537.36"@,
        "Mozilla/5.0 (Macintosh; Intel Mac OS X 10_15_7) AppleWebKit/537.36"@,
        "Mozilla/5.0 (X11; Ubuntu; Linux x86_64) AppleWebKit/537.36"@,
        "Mozilla/5.0 (Linux; Android 14; Pixel 7) AppleWebKit/537.36"@,
        "Mozilla/5.0 (iPhone; CPU iPhone OS 17_2 like Mac OS X) AppleWebKit/537.36"@,
        "Mozilla/5.0 (Windows NT 6.1; Win64; x64) AppleWebKit/537.36"@,
        "Mozilla/5.0 (Macintosh; Intel Mac OS X 11_6) AppleWebKit/537.36"@,
        "Mozilla/5.0 (X11; Linux x86_64) AppleWebKit/537.36"@,
        "Mozilla/5.0 (Linux; Android 13; SM-G991B) AppleWebKit/537.36"@,
        "Mozilla/5.0 (iPad; CPU OS 16_6 like Mac OS X) AppleWebKit/537.36"@,
        "Mozilla/5.0 (Windows NT 10.0; Win64; x64) AppleWebKit/537.36"@,
        "Mozilla/5.0 (Macintosh; Intel Mac OS X 12_5_1) AppleWebKit/537.36"@,
        "Mozilla/5.0 (X11; Fedora; Linux x86_64) AppleWebKit/537.36"@,
        "Mozilla/5.0 (Linux; Android 12; OnePlus 9) AppleWebKit/537.36"@,
        "Mozilla/5.0 (Macintosh; Intel Mac OS X 10_14_6) AppleWebKit/537.36"@,
        "Mozilla/5.0 (Linux; Android 11; Nokia X20) AppleWebKit/537.36"@,
        "Mozilla/5.0 (Windows NT 6.3; Win64; x64) AppleWebKit/537.36"@,
        "Mozilla/5.0 (X11; CrOS x86_64 15604.45.0) AppleWebKit/537.36"@,
        "Mozilla/5.0 (Windows NT 10.0) AppleWebKit/537.36"@,
        "Mozilla/5.0 (Macintosh; Intel Mac OS X 10_13_6) AppleWebKit/537.36"@,
    ]
}

/// The browser name at position `i`.
pub fn user_agent(i: usize) -> (r: &'static str)
    requires
        i < 20,
    ensures
        r@ == user_agents()[i as int],
{
    if i == 0 {
        "Mozilla/5.0 (Windows NT 10.0; Win64; x64) AppleWebKit/537.36"
    } else if i == 1 {
        "Mozilla/5.0 (Macintosh; Intel Mac OS X 10_15_7) AppleWebKit/537.36"
    } else if i == 2 {
        "Mozilla/5.0 (X11; Ubuntu; Linux x86_64) AppleWebKit/537.36"
    } else if i == 3 {
        "Mozilla/5.0 (Linux; Android 14; Pixel 7) AppleWebKit/537.36"
    } else if i == 4 {
        "Mozilla/5.0 (iPhone; CPU iPhone OS 17_2 like Mac OS X) AppleWebKit/537.36"
    } else if i == 5 {
        "Mozilla/5.0 (Windows NT 6.1; Win64; x64) AppleWebKit/537.36"
    } else if i == 6 {
        "Mozilla/5.0 (Macintosh; Intel Mac OS X 11_6) AppleWebKit/537.36"
    } else if i == 7 {
        "Mozilla/5.0 (X11; Linux x86_64) AppleWebKit/537.36"
    } else if i == 8 {
        "Mozilla/5.0 (Linux; Android 13; SM-G991B) AppleWebKit/537.36"
    } else if i == 9 {
        "Mozilla/5.0 (iPad; CPU OS 16_6 like Mac OS X) AppleWebKit/537.36"
    } else if i == 10 {
        "Mozilla/5.0 (Windows NT 10.0; Win64; x64) AppleWebKit/537.36"
    } else if i == 11 {
        "Mozilla/5.0 (Macintosh; Intel Mac OS X 12_5_1) AppleWebKit/537.36"
    } else if i == 12 {
        "Mozilla/5.0 (X11; Fedora; Linux x86_64) AppleWebKit/537.36"
    } else if i == 13 {
        "Mozilla/5.0 (Linux; Android 12; OnePlus 9) AppleWebKit/537.36"
    } else if i == 14 {
        "Mozilla/5.0 (Macintosh; Intel Mac OS X 10_14_6) AppleWebKit/537.36"
    } else if i == 15 {
        "Mozilla/5.0 (Linux; Android 11; Nokia X20) AppleWebKit/537.36"
    } else if i == 16 {
        "Mozilla/5.0 (Windows NT 6.3; Win64; x64) AppleWebKit/537.36"
    } else if i == 17 {
        "Mozilla/5.0 (X11; CrOS x86_64 15604.45.0) AppleWebKit/537.36"
    } else if i == 18 {
        "Mozilla/5.0 (Windows NT 10.0) AppleWebKit/537.36"
    } else {
        "Mozilla/5.0 (Macintosh; Intel Mac OS X 10_13_6) AppleWebKit/537.36"
    }
}

/// One of the browser names, drawn at random.
pub fn kies_user_agent() -> (r: &'static str)
    ensures
        user_agents().contains(r@),
{
    let i = willekeurige_index(20);
    let r = user_agent(i);
    assert(user_agents()[i as int] == r@);
    r
}

/// The highest price in cents that a search asks for: none for an unlimited
/// ceiling.
pub open spec fn prijs_tot(grens: MaxPrijs) -> int {
    match grens {
        MaxPrijs::Onbeperkt => i64::MAX as int,
        MaxPrijs::AlleenGratis => 0,
        MaxPrijs::Begrensd(n) => n * 100,
    }
}

/// The address of a search, `q` being the encoded keyword.
pub open spec fn zoek_adres(c: Configuratie, q: Seq<char>, grens: MaxPrijs) -> Seq<char> {
    "https://www.marktplaats.nl/lrp/api/search?limit="@ + decimaal(
        c.max_advertenties_per_zoekopdracht as nat,
    ) + "&offset=0&postcode="@ + c.postcode@ + "&distanceMeters="@ + decimaal(
        (c.afstand_km * 1000) as nat,
    ) + "&priceFrom=0&priceTo="@ + decimaal_int(prijs_tot(grens)) + "&query="@ + q
}

/// What a search sends: its address, the browser name it presents, and the
/// key, if one is configured.
pub struct ZoekVerzoek {
    pub url: String,
    pub user_agent: String,
    pub api_key: Option<String>,
}

/// The address of a search for the encoded keyword `gecodeerd`.
pub fn zoek_adres_met(c: &Configuratie, gecodeerd: &str, grens: MaxPrijs) -> (r: String)
    ensures
        r@ == zoek_adres(*c, gecodeerd@, grens),
{
    let mut s = String::from_str("https://www.marktplaats.nl/lrp/api/search?limit=");
    schrijf_decimaal(&mut s, c.max_advertenties_per_zoekopdracht as u64);
    s.append("&offset=0&postcode=");
    s.append(c.postcode.as_str());
    s.append("&distanceMeters=");
    schrijf_decimaal(&mut s, (c.afstand_km as u64) * 1000);
    s.append("&priceFrom=0&priceTo=");
    let tot: i64 = match grens {
        MaxPrijs::Onbeperkt => i64::MAX,
        MaxPrijs::AlleenGratis => 0,
        MaxPrijs::Begrensd(n) => (n as i64) * 100,
    };
    schrijf_decimaal_int(&mut s, tot);
    s.append("&query=");
    s.append(gecodeerd);
    s
}

impl Monitor {
    /// The request that searches for `zoekwoord` under ceiling `max_prijs`.
    pub fn zoek_verzoek(&self, zoekwoord: &str, max_prijs: MaxPrijs) -> (r: ZoekVerzoek)
        ensures
            r.url@ == zoek_adres(self.configuratie, url_gecodeerd(zoekwoord@), max_prijs),
            user_agents().contains(r.user_agent@),
            r.api_key == self.configuratie.api_key,
    {
        let q = url_codeer(zoekwoord);
        let url = zoek_adres_met(&self.configuratie, q.as_str(), max_prijs);
        let ua = kies_user_agent();
        ZoekVerzoek {
            url,
            user_agent: String::from_str(ua),
            api_key: match &self.configuratie.api_key {
                Some(k) => Some(k.clone()),
                None => None,
            },
        }
    }
}

} // verus!
