//! What holds of the log format: a block reads back as the record it was
//! written from, a log reads back as its records, and a block cut off before
//! its rule line is left out.
use vstd::prelude::*;
use crate::codec::{
    afbeelding_label, beschrijving_label, codeer, decodeer, decodeer_vanaf, geen_afbeelding, is_kop,
    kop_anker, kop_regel, leeg_record, link_label, locatie_label, max_anker, na_label,
    plaats_en_afstand, prijs_label, regels_tekst, regels_van, stap, streep, titel_label,
    zoekwoord_en_max, LogRecordView,
};
use crate::tekst::{
    lemma_index_van, lemma_index_van_geen, lemma_laatste_open_haakje, lemma_laatste_van,
    open_haakje_op, staat_op,
};

verus! {

/// Whether `s` holds no newline.
pub open spec fn zonder_regeleinde(s: Seq<char>) -> bool {
    forall|i: int| 0 <= i < s.len() ==> s[i] != '\n'
}

/// Whether `s` holds no `c`.
pub open spec fn zonder_teken(s: Seq<char>, c: char) -> bool {
    forall|i: int| 0 <= i < s.len() ==> s[i] != c
}

/// The records whose block reads back as they are: no field holds a newline,
/// the time stamp holds no `]`, the ceiling no quote, the distance no `" ("`,
/// and an image is not the word that stands for none.
pub open spec fn schrijfbaar(r: LogRecordView) -> bool {
    &&& zonder_regeleinde(r.tijdstempel)
    &&& zonder_regeleinde(r.zoekwoord)
    &&& zonder_regeleinde(r.max_prijs)
    &&& zonder_regeleinde(r.titel)
    &&& zonder_regeleinde(r.prijs)
    &&& zonder_regeleinde(r.locatie)
    &&& zonder_regeleinde(r.afstand)
    &&& zonder_regeleinde(r.link)
    &&& zonder_regeleinde(r.beschrijving)
    &&& match r.afbeelding {
        Some(a) => zonder_regeleinde(a) && a != geen_afbeelding(),
        None => true,
    }
    &&& zonder_teken(r.tijdstempel, ']')
    &&& zonder_teken(r.max_prijs, '\'')
    &&& forall|i: int| !open_haakje_op(r.afstand, i)
}

/// The lines `ls` read one after another.
pub open spec fn stappen(
    acc: Seq<LogRecordView>,
    open: Option<LogRecordView>,
    ls: Seq<Seq<char>>,
) -> (Seq<LogRecordView>, Option<LogRecordView>)
    decreases ls.len(),
{
    if ls.len() == 0 {
        (acc, open)
    } else {
        let (a, o) = stap(acc, open, ls[0]);
        stappen(a, o, ls.drop_first())
    }
}

/// A log written from records, oldest first.
pub open spec fn log_tekst(rs: Seq<LogRecordView>) -> Seq<char>
    decreases rs.len(),
{
    if rs.len() == 0 {
        Seq::empty()
    } else {
        log_tekst(rs.drop_last()) + codeer(rs.last())
    }
}

proof fn lemma_decodeer_regels(
    x: Seq<char>,
    p: int,
    ls: Seq<Seq<char>>,
    acc: Seq<LogRecordView>,
    open: Option<LogRecordView>,
)
    requires
        0 <= p,
        p + regels_tekst(ls).len() <= x.len(),
        x.subrange(p, p + regels_tekst(ls).len()) == regels_tekst(ls),
        forall|i: int| 0 <= i < ls.len() ==> zonder_regeleinde(#[trigger] ls[i]),
    ensures
        decodeer_vanaf(x, p, acc, open) == decodeer_vanaf(
            x,
            p + regels_tekst(ls).len(),
            stappen(acc, open, ls).0,
            stappen(acc, open, ls).1,
        ),
    decreases ls.len(),
{
    if ls.len() > 0 {
        let l = ls[0];
        let rest = ls.drop_first();
        let t = regels_tekst(ls);
        assert(zonder_regeleinde(ls[0]));
        assert(t == l + seq!['\n'] + regels_tekst(rest));
        let k = p + l.len();
        assert(x[k] == x.subrange(p, p + t.len())[l.len() as int]);
        assert(x[k] == '\n');
        assert forall|j: int| p <= j < k implies x[j] != '\n' by {
            assert(x[j] == x.subrange(p, p + t.len())[j - p]);
            assert(t[j - p] == l[j - p]);
        }
        lemma_index_van(x, '\n', p, k);
        assert(x.subrange(p, k) =~= l) by {
            assert forall|j: int| 0 <= j < l.len() implies x.subrange(p, k)[j] == l[j] by {
                assert(x.subrange(p, k)[j] == x.subrange(p, p + t.len())[j]);
                assert(t[j] == l[j]);
            }
        }
        let (a2, o2) = stap(acc, open, l);
        let rt = regels_tekst(rest);
        assert(x.subrange(k + 1, k + 1 + rt.len()) =~= rt) by {
            assert forall|j: int| 0 <= j < rt.len() implies x.subrange(k + 1, k + 1 + rt.len())[j]
                == rt[j] by {
                assert(x.subrange(k + 1, k + 1 + rt.len())[j] == x.subrange(p, p + t.len())[l.len()
                    + 1 + j]);
                assert(t[l.len() + 1 + j] == rt[j]);
            }
        }
        assert forall|i: int| 0 <= i < rest.len() implies zonder_regeleinde(#[trigger] rest[i]) by {
            assert(rest[i] == ls[i + 1]);
        }
        lemma_decodeer_regels(x, k + 1, rest, a2, o2);
    }
}

proof fn lemma_einde(x: Seq<char>, acc: Seq<LogRecordView>, open: Option<LogRecordView>)
    ensures
        decodeer_vanaf(x, x.len() as int, acc, open) == acc,
{
    reveal_strlit("============================================================");
    assert(x.subrange(x.len() as int, x.len() as int) =~= Seq::<char>::empty());
    assert(Seq::<char>::empty() != streep()) by {
        assert(streep().len() == 60);
    }
}

proof fn lemma_niet_label(l: Seq<char>, lab: Seq<char>, i: int)
    requires
        0 <= i < lab.len(),
        i < l.len(),
        l[i] != lab[i],
    ensures
        !staat_op(l, lab, 0),
{
    if staat_op(l, lab, 0) {
        assert(l.subrange(0, lab.len() as int)[i] == l[i]);
    }
}

proof fn lemma_label(lab: Seq<char>, x: Seq<char>)
    ensures
        staat_op(lab + x, lab, 0),
        na_label(lab + x, lab) == x,
{
    assert((lab + x).subrange(0, lab.len() as int) =~= lab);
    assert((lab + x).subrange(lab.len() as int, (lab + x).len() as int) =~= x);
}

proof fn lemma_literalen()
    ensures
        titel_label() == seq![' ', ' ', 'T', 'i', 't', 'l', 'e', ':', ' '],
        prijs_label() == seq![' ', ' ', 'P', 'r', 'i', 'c', 'e', ':', ' '],
        locatie_label() == seq![' ', ' ', 'L', 'o', 'c', 'a', 't', 'i', 'o', 'n', ':', ' '],
        link_label() == seq![' ', ' ', 'L', 'i', 'n', 'k', ':', ' '],
        afbeelding_label() == seq![' ', ' ', 'I', 'm', 'a', 'g', 'e', ':', ' '],
        beschrijving_label() == seq![
            ' ',
            ' ',
            'D',
            'e',
            's',
            'c',
            'r',
            'i',
            'p',
            't',
            'i',
            'o',
            'n',
            ':',
            ' ',
        ],
        kop_anker() == seq![']', ' ', 'F', 'o', 'u', 'n', 'd', ':', ' '],
        "] Found: '"@ == seq![']', ' ', 'F', 'o', 'u', 'n', 'd', ':', ' ', '\''],
        max_anker() == seq!['\'', ' ', '(', 'm', 'a', 'x', ' ', '€'],
        "["@ == seq!['['],
        ")"@ == seq![')'],
        " ("@ == seq![' ', '('],
        streep().len() == 60,
        streep()[0] == '=',
        zonder_regeleinde(streep()),
        geen_afbeelding() == seq!['n', 'o', 'n', 'e'],
{
    reveal_strlit("  Title: ");
    reveal_strlit("  Price: ");
    reveal_strlit("  Location: ");
    reveal_strlit("  Link: ");
    reveal_strlit("  Image: ");
    reveal_strlit("  Description: ");
    reveal_strlit("] Found: ");
    reveal_strlit("] Found: '");
    reveal_strlit("' (max €");
    reveal_strlit("[");
    reveal_strlit(")");
    reveal_strlit(" (");
    reveal_strlit("none");
    reveal_strlit("============================================================");
    assert(titel_label() =~= seq![' ', ' ', 'T', 'i', 't', 'l', 'e', ':', ' ']);
    assert(prijs_label() =~= seq![' ', ' ', 'P', 'r', 'i', 'c', 'e', ':', ' ']);
    assert(locatie_label() =~= seq![' ', ' ', 'L', 'o', 'c', 'a', 't', 'i', 'o', 'n', ':', ' ']);
    assert(link_label() =~= seq![' ', ' ', 'L', 'i', 'n', 'k', ':', ' ']);
    assert(afbeelding_label() =~= seq![' ', ' ', 'I', 'm', 'a', 'g', 'e', ':', ' ']);
    assert(beschrijving_label() =~= seq![
        ' ',
        ' ',
        'D',
        'e',
        's',
        'c',
        'r',
        'i',
        'p',
        't',
        'i',
        'o',
        'n',
        ':',
        ' ',
    ]);
    assert(kop_anker() =~= seq![']', ' ', 'F', 'o', 'u', 'n', 'd', ':', ' ']);
    assert("] Found: '"@ =~= seq![']', ' ', 'F', 'o', 'u', 'n', 'd', ':', ' ', '\'']);
    assert(max_anker() =~= seq!['\'', ' ', '(', 'm', 'a', 'x', ' ', '€']);
    assert("["@ =~= seq!['[']);
    assert(")"@ =~= seq![')']);
    assert(" ("@ =~= seq![' ', '(']);
    assert(geen_afbeelding() =~= seq!['n', 'o', 'n', 'e']);
    assert(streep() =~= Seq::new(60, |i: int| '='));
}

proof fn lemma_stappen_stap(
    acc: Seq<LogRecordView>,
    open: Option<LogRecordView>,
    ls: Seq<Seq<char>>,
    i: int,
)
    requires
        0 <= i < ls.len(),
    ensures
        stappen(acc, open, ls.subrange(i, ls.len() as int)) == stappen(
            stap(acc, open, ls[i]).0,
            stap(acc, open, ls[i]).1,
            ls.subrange(i + 1, ls.len() as int),
        ),
{
    assert(ls.subrange(i, ls.len() as int).drop_first() =~= ls.subrange(i + 1, ls.len() as int));
    assert(ls.subrange(i, ls.len() as int)[0] == ls[i]);
}

proof fn lemma_kop(acc: Seq<LogRecordView>, open: Option<LogRecordView>, r: LogRecordView)
    requires
        schrijfbaar(r),
    ensures
        stap(acc, open, kop_regel(r)) == (acc, Some(
            leeg_record(r.tijdstempel, r.zoekwoord, r.max_prijs),
        )),
{
    lemma_literalen();
    let ts = r.tijdstempel;
    let kw = r.zoekwoord;
    let mx = r.max_prijs;
    let a10 = "] Found: '"@;
    let m8 = max_anker();
    let l = kop_regel(r);
    assert(l == seq!['['] + ts + a10 + kw + m8 + mx + seq![')']);
    let j = 1 + ts.len() as int;
    assert(l[0] == '[');
    assert(l[j] == ']');
    assert forall|i: int| 0 <= i < j implies l[i] != ']' by {
        if i > 0 {
            assert(l[i] == ts[i - 1]);
        }
    }
    lemma_index_van(l, ']', 0, j);
    assert(l.subrange(j, j + 9) =~= kop_anker());
    assert(is_kop(l));
    let rest = l.subrange(j + 9, l.len() as int);
    assert(rest =~= seq!['\''] + kw + m8 + mx + seq![')']);
    let q = 1 + kw.len() as int;
    assert(rest[q] == '\'');
    assert forall|i: int| q < i <= rest.len() - 1 implies rest[i] != '\'' by {
        if i < q + 8 {
            assert(rest[i] == m8[i - q]);
        } else if i < q + 8 + mx.len() {
            assert(rest[i] == mx[i - q - 8]);
        }
    }
    lemma_laatste_van(rest, '\'', rest.len() - 1, q);
    assert(rest.subrange(q, q + 8) =~= m8);
    assert(rest.subrange(1, q) =~= kw);
    assert(rest.subrange(q + 8, rest.len() - 1) =~= mx);
    assert(zoekwoord_en_max(rest) == (kw, mx));
    assert(l.subrange(1, j) =~= ts);
}

proof fn lemma_plaats(loc: Seq<char>, af: Seq<char>)
    requires
        forall|i: int| !open_haakje_op(af, i),
    ensures
        plaats_en_afstand(loc + " ("@ + af + ")"@) == (loc, af),
{
    lemma_literalen();
    let x = loc + " ("@ + af + ")"@;
    let p = loc.len() as int;
    assert(x[p] == ' ' && x[p + 1] == '(');
    assert forall|j: int| p < j <= x.len() - 2 implies !open_haakje_op(x, j) by {
        if j == p + 1 {
            assert(x[j] == '(');
        } else if j + 1 < p + 2 + af.len() {
            assert(x[j] == af[j - p - 2]);
            assert(x[j + 1] == af[j - p - 1]);
            assert(!open_haakje_op(af, j - p - 2));
        } else {
            assert(x[j + 1] == ')');
        }
    }
    lemma_laatste_open_haakje(x, x.len() - 2, p);
    assert(x.subrange(0, p) =~= loc);
    assert(x.subrange(p + 2, x.len() as int) =~= af + seq![')']);
    assert((af + seq![')']).drop_last() =~= af);
}

/// Reading the lines of a record's block, with no record open, emits that
/// record and leaves none open.
proof fn lemma_record_stappen(acc: Seq<LogRecordView>, r: LogRecordView)
    requires
        schrijfbaar(r),
    ensures
        stappen(acc, None, regels_van(r)) == (acc.push(r), None::<LogRecordView>),
{
    lemma_literalen();
    let ls = regels_van(r);
    assert(ls.subrange(0, 9) == ls);
    // header
    lemma_kop(acc, None, r);
    let o0 = leeg_record(r.tijdstempel, r.zoekwoord, r.max_prijs);
    lemma_stappen_stap(acc, None, ls, 0);
    // title
    let l1 = ls[1];
    assert(l1[0] == ' ');
    assert(l1 != streep()) by { assert(l1[0] != streep()[0]); }
    lemma_label(titel_label(), r.titel);
    let o1 = LogRecordView { titel: r.titel, ..o0 };
    assert(stap(acc, Some(o0), l1) == (acc, Some(o1)));
    lemma_stappen_stap(acc, Some(o0), ls, 1);
    // price
    let l2 = ls[2];
    assert(l2 != streep()) by { assert(l2[0] != streep()[0]); }
    lemma_niet_label(l2, titel_label(), 2);
    lemma_label(prijs_label(), r.prijs);
    let o2 = LogRecordView { prijs: r.prijs, ..o1 };
    assert(stap(acc, Some(o1), l2) == (acc, Some(o2)));
    lemma_stappen_stap(acc, Some(o1), ls, 2);
    // location
    let l3 = ls[3];
    let x3 = r.locatie + " ("@ + r.afstand + ")"@;
    assert(l3 =~= locatie_label() + x3);
    assert(l3 != streep()) by { assert(l3[0] != streep()[0]); }
    lemma_niet_label(l3, titel_label(), 2);
    lemma_niet_label(l3, prijs_label(), 2);
    lemma_label(locatie_label(), x3);
    lemma_plaats(r.locatie, r.afstand);
    let o3 = LogRecordView { locatie: r.locatie, afstand: r.afstand, ..o2 };
    assert(stap(acc, Some(o2), l3) == (acc, Some(o3)));
    lemma_stappen_stap(acc, Some(o2), ls, 3);
    // link
    let l4 = ls[4];
    assert(l4 != streep()) by { assert(l4[0] != streep()[0]); }
    lemma_niet_label(l4, titel_label(), 2);
    lemma_niet_label(l4, prijs_label(), 2);
    lemma_niet_label(l4, locatie_label(), 3);
    lemma_label(link_label(), r.link);
    let o4 = LogRecordView { link: r.link, ..o3 };
    assert(stap(acc, Some(o3), l4) == (acc, Some(o4)));
    lemma_stappen_stap(acc, Some(o3), ls, 4);
    // image
    let l5 = ls[5];
    let a5 = match r.afbeelding {
        Some(a) => a,
        None => geen_afbeelding(),
    };
    assert(l5 != streep()) by { assert(l5[0] != streep()[0]); }
    lemma_niet_label(l5, titel_label(), 2);
    lemma_niet_label(l5, prijs_label(), 2);
    lemma_niet_label(l5, locatie_label(), 2);
    lemma_niet_label(l5, link_label(), 2);
    lemma_label(afbeelding_label(), a5);
    let o5 = LogRecordView { afbeelding: r.afbeelding, ..o4 };
    assert(stap(acc, Some(o4), l5) == (acc, Some(o5)));
    lemma_stappen_stap(acc, Some(o4), ls, 5);
    // description
    let l6 = ls[6];
    assert(l6 != streep()) by { assert(l6[0] != streep()[0]); }
    lemma_niet_label(l6, titel_label(), 2);
    lemma_niet_label(l6, prijs_label(), 2);
    lemma_niet_label(l6, locatie_label(), 2);
    lemma_niet_label(l6, link_label(), 2);
    lemma_niet_label(l6, afbeelding_label(), 2);
    lemma_label(beschrijving_label(), r.beschrijving);
    let o6 = LogRecordView { beschrijving: r.beschrijving, ..o5 };
    assert(stap(acc, Some(o5), l6) == (acc, Some(o6)));
    lemma_stappen_stap(acc, Some(o5), ls, 6);
    assert(o6 == r);
    // rule
    assert(!is_kop(streep()));
    assert(stap(acc, Some(o6), ls[7]) == (acc.push(r), None::<LogRecordView>));
    lemma_stappen_stap(acc, Some(o6), ls, 7);
    // empty line
    assert(stap(acc.push(r), None, ls[8]) == (acc.push(r), None::<LogRecordView>));
    lemma_stappen_stap(acc.push(r), None, ls, 8);
    assert(ls.subrange(9, 9) == Seq::<Seq<char>>::empty());
}

/// Text joined from two texts without newline has none.
pub proof fn lemma_samen_zonder(a: Seq<char>, b: Seq<char>)
    requires
        zonder_regeleinde(a),
        zonder_regeleinde(b),
    ensures
        zonder_regeleinde(a + b),
{
    assert forall|i: int| 0 <= i < (a + b).len() implies (a + b)[i] != '\n' by {
        if i < a.len() {
            assert((a + b)[i] == a[i]);
        } else {
            assert((a + b)[i] == b[i - a.len()]);
        }
    }
}

proof fn lemma_regels_zonder_regeleinde(r: LogRecordView)
    requires
        schrijfbaar(r),
    ensures
        forall|i: int| 0 <= i < regels_van(r).len() ==> zonder_regeleinde(#[trigger] regels_van(r)[i]),
{
    lemma_literalen();
    let ls = regels_van(r);
    lemma_samen_zonder("["@, r.tijdstempel);
    lemma_samen_zonder("["@ + r.tijdstempel, "] Found: '"@);
    lemma_samen_zonder("["@ + r.tijdstempel + "] Found: '"@, r.zoekwoord);
    lemma_samen_zonder("["@ + r.tijdstempel + "] Found: '"@ + r.zoekwoord, max_anker());
    lemma_samen_zonder("["@ + r.tijdstempel + "] Found: '"@ + r.zoekwoord + max_anker(), r.max_prijs);
    lemma_samen_zonder(
        "["@ + r.tijdstempel + "] Found: '"@ + r.zoekwoord + max_anker() + r.max_prijs,
        ")"@,
    );
    lemma_samen_zonder(titel_label(), r.titel);
    lemma_samen_zonder(prijs_label(), r.prijs);
    lemma_samen_zonder(locatie_label(), r.locatie);
    lemma_samen_zonder(locatie_label() + r.locatie, " ("@);
    lemma_samen_zonder(locatie_label() + r.locatie + " ("@, r.afstand);
    lemma_samen_zonder(locatie_label() + r.locatie + " ("@ + r.afstand, ")"@);
    lemma_samen_zonder(link_label(), r.link);
    let a = match r.afbeelding {
        Some(a) => a,
        None => geen_afbeelding(),
    };
    lemma_samen_zonder(afbeelding_label(), a);
    lemma_samen_zonder(beschrijving_label(), r.beschrijving);
    assert(zonder_regeleinde(Seq::<char>::empty()));
    assert forall|i: int| 0 <= i < ls.len() implies zonder_regeleinde(#[trigger] ls[i]) by {
        if i == 0 {
        } else if i == 1 {
        } else if i == 2 {
        } else if i == 3 {
        } else if i == 4 {
        } else if i == 5 {
        } else if i == 6 {
        } else if i == 7 {
        } else {
        }
    }
}

/// Reading the block of a record at `p`, with no record open, emits it.
proof fn lemma_decodeer_blok(x: Seq<char>, p: int, r: LogRecordView, acc: Seq<LogRecordView>)
    requires
        schrijfbaar(r),
        0 <= p,
        p + codeer(r).len() <= x.len(),
        x.subrange(p, p + codeer(r).len()) == codeer(r),
    ensures
        decodeer_vanaf(x, p, acc, None) == decodeer_vanaf(x, p + codeer(r).len(), acc.push(r), None),
{
    lemma_regels_zonder_regeleinde(r);
    lemma_decodeer_regels(x, p, regels_van(r), acc, None);
    lemma_record_stappen(acc, r);
}

/// Reading a written log at `p`, with no record open, emits its records.
proof fn lemma_decodeer_log(x: Seq<char>, p: int, rs: Seq<LogRecordView>, acc: Seq<LogRecordView>)
    requires
        forall|i: int| 0 <= i < rs.len() ==> schrijfbaar(#[trigger] rs[i]),
        0 <= p,
        p + log_tekst(rs).len() <= x.len(),
        x.subrange(p, p + log_tekst(rs).len()) == log_tekst(rs),
    ensures
        decodeer_vanaf(x, p, acc, None) == decodeer_vanaf(
            x,
            p + log_tekst(rs).len(),
            acc + rs,
            None,
        ),
    decreases rs.len(),
{
    if rs.len() == 0 {
        assert(acc + rs =~= acc);
    } else {
        let init = rs.drop_last();
        let lt = log_tekst(init);
        let c = codeer(rs.last());
        assert(log_tekst(rs) == lt + c);
        assert(x.subrange(p, p + lt.len()) =~= lt) by {
            assert forall|j: int| 0 <= j < lt.len() implies x.subrange(p, p + lt.len())[j] == lt[j] by {
                assert(x.subrange(p, p + lt.len())[j] == x.subrange(p, p + log_tekst(rs).len())[j]);
            }
        }
        assert(x.subrange(p + lt.len(), p + lt.len() + c.len()) =~= c) by {
            assert forall|j: int| 0 <= j < c.len() implies x.subrange(
                p + lt.len(),
                p + lt.len() + c.len(),
            )[j] == c[j] by {
                assert(x.subrange(p + lt.len(), p + lt.len() + c.len())[j] == x.subrange(
                    p,
                    p + log_tekst(rs).len(),
                )[lt.len() + j]);
            }
        }
        assert forall|i: int| 0 <= i < init.len() implies schrijfbaar(#[trigger] init[i]) by {
            assert(init[i] == rs[i]);
        }
        lemma_decodeer_log(x, p, init, acc);
        assert(schrijfbaar(rs[rs.len() - 1]));
        lemma_decodeer_blok(x, p + lt.len(), rs.last(), acc + init);
        assert((acc + init).push(rs.last()) =~= acc + rs);
    }
}

/// A written record reads back as itself.
///
/// Holds for every record whose fields hold no newline, whose time stamp holds
/// no `]`, whose ceiling holds no quote, whose distance holds no `" ("`, and
/// whose image is not the word `none`. Titles and descriptions may hold
/// anything else, the header anchor included: only a line that begins with `[`
/// can open a record.
pub proof fn lemma_heen_en_terug(r: LogRecordView)
    requires
        schrijfbaar(r),
    ensures
        decodeer(codeer(r)) == seq![r],
{
    let x = codeer(r);
    assert(x.subrange(0, x.len() as int) =~= x);
    lemma_decodeer_blok(x, 0, r, Seq::empty());
    lemma_einde(x, seq![r], None);
    assert(Seq::<LogRecordView>::empty().push(r) == seq![r]);
}

/// A log written from records reads back as those records, in order.
pub proof fn lemma_log_heen_en_terug(rs: Seq<LogRecordView>)
    requires
        forall|i: int| 0 <= i < rs.len() ==> schrijfbaar(#[trigger] rs[i]),
    ensures
        decodeer(log_tekst(rs)) == rs,
{
    let x = log_tekst(rs);
    assert(x.subrange(0, x.len() as int) =~= x);
    lemma_decodeer_log(x, 0, rs, Seq::empty());
    lemma_einde(x, Seq::empty() + rs, None);
    assert(Seq::<LogRecordView>::empty() + rs =~= rs);
}

proof fn lemma_geen_streep(acc: Seq<LogRecordView>, open: Option<LogRecordView>, ls: Seq<Seq<char>>)
    requires
        forall|i: int| 0 <= i < ls.len() ==> #[trigger] ls[i] != streep(),
    ensures
        stappen(acc, open, ls).0 == acc,
    decreases ls.len(),
{
    if ls.len() > 0 {
        let (a, o) = stap(acc, open, ls[0]);
        assert(a == acc);
        assert forall|i: int| 0 <= i < ls.drop_first().len() implies #[trigger] ls.drop_first()[i]
            != streep() by {
            assert(ls.drop_first()[i] == ls[i + 1]);
        }
        lemma_geen_streep(a, o, ls.drop_first());
    }
}

/// A log whose last block was cut off before its rule line was complete reads
/// back as the records before that block.
///
/// The cut block is the first `j` lines of the block of `r`, each with its
/// newline, followed by the first `m` characters of its next line; the cut
/// falls in the header or field lines, or in the rule line before its end.
pub proof fn lemma_afgebroken_blok(rs: Seq<LogRecordView>, r: LogRecordView, j: int, m: int)
    requires
        forall|i: int| 0 <= i < rs.len() ==> schrijfbaar(#[trigger] rs[i]),
        schrijfbaar(r),
        0 <= j <= 7,
        0 <= m <= regels_van(r)[j].len(),
        j == 7 ==> m < streep().len(),
    ensures
        decodeer(
            log_tekst(rs) + regels_tekst(regels_van(r).subrange(0, j)) + regels_van(r)[j].subrange(
                0,
                m,
            ),
        ) == rs,
{
    lemma_literalen();
    lemma_regels_zonder_regeleinde(r);
    let lt = log_tekst(rs);
    let ls = regels_van(r).subrange(0, j);
    let rt = regels_tekst(ls);
    let d = regels_van(r)[j].subrange(0, m);
    let x = lt + rt + d;
    assert(x.subrange(0, lt.len() as int) =~= lt);
    lemma_decodeer_log(x, 0, rs, Seq::empty());
    assert(Seq::<LogRecordView>::empty() + rs =~= rs);
    assert(x.subrange(lt.len() as int, (lt.len() + rt.len()) as int) =~= rt);
    assert forall|i: int| 0 <= i < ls.len() implies zonder_regeleinde(#[trigger] ls[i]) by {
        assert(ls[i] == regels_van(r)[i]);
    }
    lemma_decodeer_regels(x, lt.len() as int, ls, rs, None);
    assert forall|i: int| 0 <= i < ls.len() implies #[trigger] ls[i] != streep() by {
        assert(ls[i] == regels_van(r)[i]);
        assert(ls[i][0] != streep()[0]);
    }
    lemma_geen_streep(rs, None, ls);
    let st = stappen(rs, None, ls);
    let pos = (lt.len() + rt.len()) as int;
    assert(x.subrange(pos, x.len() as int) =~= d);
    assert forall|i: int| pos <= i < x.len() implies x[i] != '\n' by {
        assert(x[i] == d[i - pos]);
        assert(d[i - pos] == regels_van(r)[j][i - pos]);
        assert(zonder_regeleinde(regels_van(r)[j]));
    }
    lemma_index_van_geen(x, '\n', pos);
    assert(d != streep()) by {
        if m > 0 && j < 7 {
            assert(d[0] == regels_van(r)[j][0]);
            assert(d[0] != streep()[0]);
        }
    }
    assert(stap(st.0, st.1, d).0 == rs);
}

} // verus!
