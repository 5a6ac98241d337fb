//! Prices: the kinds of price a listing can have, the ceiling a wishlist entry
//! sets, the decision whether a price fits, and how a price is written.
use vstd::prelude::*;
use crate::model::{PrijsInfo, Zichtbaarheid};
use crate::tekst::{cijfer, cijfer_teken, decimaal, schrijf_decimaal, voeg_teken_toe, zelfde_tekst};

verus! {

/// The kind of a price that has no amount.
#[derive(Clone, Copy, Debug, PartialEq, Eq, Structural)]
pub enum PrijsSoort {
    Bieden,
    Gratis,
    ZieBeschrijving,
    Gereserveerd,
    NaderOverTeKomen,
    Minimumbod,
    Ruilen,
    Anders,
}

/// The highest price a wishlist entry accepts.
#[derive(Clone, Copy, Debug, PartialEq, Eq, Structural)]
pub enum MaxPrijs {
    /// Any price.
    Onbeperkt,
    /// Only listings that are free.
    AlleenGratis,
    /// At most this many whole euros.
    Begrensd(i32),
}

/// The kind named by a price type as the search writes it.
pub open spec fn soort_van(t: Seq<char>) -> PrijsSoort {
    if t == "BID"@ {
        PrijsSoort::Bieden
    } else if t == "FREE"@ {
        PrijsSoort::Gratis
    } else if t == "SEE_DESCRIPTION"@ {
        PrijsSoort::ZieBeschrijving
    } else if t == "RESERVED"@ {
        PrijsSoort::Gereserveerd
    } else if t == "NOTK"@ {
        PrijsSoort::NaderOverTeKomen
    } else if t == "MIN_BID"@ {
        PrijsSoort::Minimumbod
    } else if t == "SWAP"@ {
        PrijsSoort::Ruilen
    } else {
        PrijsSoort::Anders
    }
}

/// Whether a listing with this price is wanted under ceiling `grens`.
pub open spec fn komt_overeen(
    centen: Option<i32>,
    soort: PrijsSoort,
    grens: MaxPrijs,
    z: Zichtbaarheid,
) -> bool {
    match centen {
        Some(c) => if c == 0 {
            z.toon_gratis
        } else {
            match grens {
                MaxPrijs::AlleenGratis => false,
                MaxPrijs::Onbeperkt => true,
                MaxPrijs::Begrensd(n) => c <= n * 100,
            }
        },
        None => match soort {
            PrijsSoort::Gratis => z.toon_gratis,
            PrijsSoort::Bieden => z.toon_bieden && !(grens is AlleenGratis),
            _ => z.toon_zie_beschrijving && !(grens is AlleenGratis),
        },
    }
}

/// An amount of cents written as euros with two decimals: `12.50`, `-0.05`.
pub open spec fn bedrag(c: int) -> Seq<char> {
    let a = if c < 0 {
        -c
    } else {
        c
    };
    let teken = if c < 0 {
        seq!['-']
    } else {
        Seq::<char>::empty()
    };
    teken + decimaal((a / 100) as nat) + seq!['.', cijfer((a % 100) / 10), cijfer(a % 10)]
}

/// How a price is shown.
pub open spec fn prijs_tekst(centen: Option<i32>, soort: PrijsSoort) -> Seq<char> {
    match centen {
        Some(c) => if c == 0 {
            "Free"@
        } else {
            "€"@ + bedrag(c as int)
        },
        None => match soort {
            PrijsSoort::Bieden => "Bid"@,
            PrijsSoort::Gratis => "Free"@,
            PrijsSoort::ZieBeschrijving => "See description"@,
            PrijsSoort::Gereserveerd => "Reserved"@,
            PrijsSoort::NaderOverTeKomen => "Negotiable"@,
            PrijsSoort::Minimumbod => "Minimum bid"@,
            PrijsSoort::Ruilen => "Swap"@,
            PrijsSoort::Anders => "See description/other"@,
        },
    }
}

/// The bracketed tag written after a price in the log, or nothing.
pub open spec fn soort_label(soort: PrijsSoort) -> Seq<char> {
    match soort {
        PrijsSoort::Bieden => " [BID]"@,
        PrijsSoort::Gratis => " [FREE]"@,
        PrijsSoort::Gereserveerd => " [RESERVED]"@,
        PrijsSoort::NaderOverTeKomen => " [NEGOTIABLE]"@,
        PrijsSoort::Minimumbod => " [MIN. BID]"@,
        PrijsSoort::Ruilen => " [SWAP]"@,
        _ => ""@,
    }
}

/// The kind of price named by `t`.
pub fn prijs_soort(t: &str) -> (r: PrijsSoort)
    ensures
        r == soort_van(t@),
{
    if zelfde_tekst(t, "BID") {
        PrijsSoort::Bieden
    } else if zelfde_tekst(t, "FREE") {
        PrijsSoort::Gratis
    } else if zelfde_tekst(t, "SEE_DESCRIPTION") {
        PrijsSoort::ZieBeschrijving
    } else if zelfde_tekst(t, "RESERVED") {
        PrijsSoort::Gereserveerd
    } else if zelfde_tekst(t, "NOTK") {
        PrijsSoort::NaderOverTeKomen
    } else if zelfde_tekst(t, "MIN_BID") {
        PrijsSoort::Minimumbod
    } else if zelfde_tekst(t, "SWAP") {
        PrijsSoort::Ruilen
    } else {
        PrijsSoort::Anders
    }
}

/// Decides whether a listing priced `prijs` is wanted under ceiling `grens`.
///
/// An amount of zero follows the free toggle and ignores the ceiling. Another
/// amount never fits a free-only ceiling, always fits an unlimited one, and
/// fits `Begrensd(n)` when it is at most `n` euros. Without an amount the kind
/// decides: free follows the free toggle, bids the bid toggle, every other kind
/// the see-description toggle; neither of the last two fits a free-only ceiling.
pub fn prijs_komt_overeen(prijs: &PrijsInfo, grens: MaxPrijs, z: Zichtbaarheid) -> (r: bool)
    ensures
        r == komt_overeen(prijs.prijs_centen, soort_van(prijs.prijs_type@), grens, z),
{
    match prijs.prijs_centen {
        Some(c) => {
            if c == 0 {
                z.toon_gratis
            } else {
                match grens {
                    MaxPrijs::AlleenGratis => false,
                    MaxPrijs::Onbeperkt => true,
                    MaxPrijs::Begrensd(n) => (c as i64) <= (n as i64) * 100,
                }
            }
        },
        None => {
            let alleen_gratis = match grens {
                MaxPrijs::AlleenGratis => true,
                _ => false,
            };
            match prijs_soort(prijs.prijs_type.as_str()) {
                PrijsSoort::Gratis => z.toon_gratis,
                PrijsSoort::Bieden => z.toon_bieden && !alleen_gratis,
                _ => z.toon_zie_beschrijving && !alleen_gratis,
            }
        },
    }
}

/// Writes an amount of cents as euros with two decimals.
pub fn schrijf_bedrag(s: &mut String, c: i32)
    ensures
        final(s)@ == old(s)@ + bedrag(c as int),
{
    let a: u64 = if c < 0 {
        (-(c as i64)) as u64
    } else {
        c as u64
    };
    if c < 0 {
        voeg_teken_toe(s, '-');
    }
    let ghost na_teken = s@;
    schrijf_decimaal(s, a / 100);
    voeg_teken_toe(s, '.');
    voeg_teken_toe(s, cijfer_teken((a % 100) / 10));
    voeg_teken_toe(s, cijfer_teken(a % 10));
    let ghost teken = if c < 0 {
        seq!['-']
    } else {
        Seq::<char>::empty()
    };
    assert(na_teken == old(s)@ + teken);
    assert(final(s)@ == old(s)@ + bedrag(c as int));
}

/// The text for a price as it is shown.
pub fn prijs_weergave(prijs: &PrijsInfo) -> (r: String)
    ensures
        r@ == prijs_tekst(prijs.prijs_centen, soort_van(prijs.prijs_type@)),
{
    match prijs.prijs_centen {
        Some(c) => {
            if c == 0 {
                String::from_str("Free")
            } else {
                let mut s = String::from_str("€");
                schrijf_bedrag(&mut s, c);
                s
            }
        },
        None => match prijs_soort(prijs.prijs_type.as_str()) {
            PrijsSoort::Bieden => String::from_str("Bid"),
            PrijsSoort::Gratis => String::from_str("Free"),
            PrijsSoort::ZieBeschrijving => String::from_str("See description"),
            PrijsSoort::Gereserveerd => String::from_str("Reserved"),
            PrijsSoort::NaderOverTeKomen => String::from_str("Negotiable"),
            PrijsSoort::Minimumbod => String::from_str("Minimum bid"),
            PrijsSoort::Ruilen => String::from_str("Swap"),
            PrijsSoort::Anders => String::from_str("See description/other"),
        },
    }
}

/// The tag written after the price of this kind in the log.
pub fn soort_tag(soort: PrijsSoort) -> (r: &'static str)
    ensures
        r@ == soort_label(soort),
{
    match soort {
        PrijsSoort::Bieden => " [BID]",
        PrijsSoort::Gratis => " [FREE]",
        PrijsSoort::Gereserveerd => " [RESERVED]",
        PrijsSoort::NaderOverTeKomen => " [NEGOTIABLE]",
        PrijsSoort::Minimumbod => " [MIN. BID]",
        PrijsSoort::Ruilen => " [SWAP]",
        _ => "",
    }
}

} // verus!
