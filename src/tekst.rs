//! Small verified helpers on text: character vectors, literal comparison and
//! decimal rendering of integers.
use vstd::prelude::*;

verus! {

/// The decimal digit character for `d`, which must be below ten.
pub open spec fn cijfer(d: int) -> char {
    if d == 0 {
        '0'
    } else if d == 1 {
        '1'
    } else if d == 2 {
        '2'
    } else if d == 3 {
        '3'
    } else if d == 4 {
        '4'
    } else if d == 5 {
        '5'
    } else if d == 6 {
        '6'
    } else if d == 7 {
        '7'
    } else if d == 8 {
        '8'
    } else {
        '9'
    }
}

/// The decimal notation of a natural number, without leading zeros.
pub open spec fn decimaal(n: nat) -> Seq<char>
    decreases n,
{
    if n < 10 {
        seq![cijfer(n as int)]
    } else {
        decimaal(n / 10).push(cijfer((n % 10) as int))
    }
}

/// The decimal notation of an integer, with a leading `-` when it is negative.
pub open spec fn decimaal_int(n: int) -> Seq<char> {
    if n < 0 {
        seq!['-'] + decimaal((-n) as nat)
    } else {
        decimaal(n as nat)
    }
}

/// Whether `p` occurs in `s` starting at position `i`.
pub open spec fn staat_op(s: Seq<char>, p: Seq<char>, i: int) -> bool {
    0 <= i && i + p.len() <= s.len() && s.subrange(i, i + p.len()) == p
}

/// Whether `p` occurs anywhere in `s`.
pub open spec fn bevat(s: Seq<char>, p: Seq<char>) -> bool {
    exists|i: int| #[trigger] staat_op(s, p, i)
}

/// The first position at or after `i` that holds `c`, or -1.
pub open spec fn index_van(s: Seq<char>, c: char, i: int) -> int
    decreases s.len() - i,
{
    if i < 0 || i >= s.len() {
        -1
    } else if s[i] == c {
        i
    } else {
        index_van(s, c, i + 1)
    }
}

/// The last position at or before `i` that holds `c`, or -1.
pub open spec fn laatste_van(s: Seq<char>, c: char, i: int) -> int
    decreases i + 1,
{
    if i < 0 {
        -1
    } else if i < s.len() && s[i] == c {
        i
    } else {
        laatste_van(s, c, i - 1)
    }
}

/// Whether `s` holds `" ("` at position `i`.
pub open spec fn open_haakje_op(s: Seq<char>, i: int) -> bool {
    0 <= i && i + 1 < s.len() && s[i] == ' ' && s[i + 1] == '('
}

/// The last position at or before `i` where `" ("` starts in `s`, or -1.
pub open spec fn laatste_open_haakje(s: Seq<char>, i: int) -> int
    decreases i + 1,
{
    if i < 0 {
        -1
    } else if open_haakje_op(s, i) {
        i
    } else {
        laatste_open_haakje(s, i - 1)
    }
}

/// `index_van` finds the first `c` from `i` on.
pub proof fn lemma_index_van(s: Seq<char>, c: char, i: int, k: int)
    requires
        0 <= i <= k < s.len(),
        s[k] == c,
        forall|j: int| i <= j < k ==> s[j] != c,
    ensures
        index_van(s, c, i) == k,
    decreases k - i,
{
    if i < k {
        lemma_index_van(s, c, i + 1, k);
    }
}

/// What `index_van` gives: -1, or the first `c` from `i` on.
pub proof fn lemma_index_van_eigenschap(s: Seq<char>, c: char, i: int)
    requires
        0 <= i,
    ensures
        index_van(s, c, i) == -1 || (i <= index_van(s, c, i) < s.len() && s[index_van(s, c, i)]
            == c),
        forall|j: int| i <= j < s.len() && (index_van(s, c, i) == -1 || j < index_van(s, c, i)) ==> s[j] != c,
    decreases s.len() - i,
{
    if i < s.len() && s[i] != c {
        lemma_index_van_eigenschap(s, c, i + 1);
    }
}

/// `index_van` finds nothing where no `c` follows `i`.
pub proof fn lemma_index_van_geen(s: Seq<char>, c: char, i: int)
    requires
        0 <= i,
        forall|j: int| i <= j < s.len() ==> s[j] != c,
    ensures
        index_van(s, c, i) == -1,
    decreases s.len() - i,
{
    if i < s.len() {
        lemma_index_van_geen(s, c, i + 1);
    }
}

/// `laatste_van` finds the last `c` at or before `i`.
pub proof fn lemma_laatste_van(s: Seq<char>, c: char, i: int, k: int)
    requires
        0 <= k <= i < s.len(),
        s[k] == c,
        forall|j: int| k < j <= i ==> s[j] != c,
    ensures
        laatste_van(s, c, i) == k,
    decreases i - k,
{
    if k < i {
        lemma_laatste_van(s, c, i - 1, k);
    }
}

/// `laatste_open_haakje` finds the last `" ("` at or before `i`.
pub proof fn lemma_laatste_open_haakje(s: Seq<char>, i: int, k: int)
    requires
        0 <= k <= i,
        open_haakje_op(s, k),
        forall|j: int| k < j <= i ==> !open_haakje_op(s, j),
    ensures
        laatste_open_haakje(s, i) == k,
    decreases i - k,
{
    if k < i {
        lemma_laatste_open_haakje(s, i - 1, k);
    }
}

/// The first position at or after `van` that holds `c`, or the length.
pub fn zoek_teken(v: &Vec<char>, c: char, van: usize) -> (k: usize)
    requires
        van <= v@.len(),
    ensures
        van <= k <= v@.len(),
        index_van(v@, c, van as int) == if k < v@.len() {
            k as int
        } else {
            -1
        },
{
    let mut k = van;
    while k < v.len() && v[k] != c
        invariant
            van <= k <= v@.len(),
            index_van(v@, c, k as int) == index_van(v@, c, van as int),
        decreases v.len() - k,
    {
        k = k + 1;
    }
    k
}

/// The last position that holds `c` in `v`.
pub fn laatste_teken(v: &Vec<char>, c: char) -> (r: Option<usize>)
    ensures
        laatste_van(v@, c, v@.len() - 1) == match r {
            Some(k) => k as int,
            None => -1,
        },
        r is Some ==> r->0 < v@.len(),
{
    let mut i = v.len();
    while i > 0
        invariant
            i <= v@.len(),
            laatste_van(v@, c, i - 1) == laatste_van(v@, c, v@.len() - 1),
        decreases i,
    {
        if v[i - 1] == c {
            return Some(i - 1);
        }
        i = i - 1;
    }
    None
}

/// The last position where `" ("` starts in `v`.
pub fn laatste_haakje(v: &Vec<char>) -> (r: Option<usize>)
    ensures
        laatste_open_haakje(v@, v@.len() - 2) == match r {
            Some(k) => k as int,
            None => -1,
        },
        r is Some ==> r->0 + 1 < v@.len(),
{
    if v.len() < 2 {
        return None;
    }
    let mut i = v.len() - 1;
    while i > 0
        invariant
            i <= v@.len() - 1,
            laatste_open_haakje(v@, i - 1) == laatste_open_haakje(v@, v@.len() - 2),
        decreases i,
    {
        if v[i - 1] == ' ' && v[i] == '(' {
            return Some(i - 1);
        }
        i = i - 1;
    }
    None
}

/// A copy of `v[van..tot]`.
pub fn deel(v: &Vec<char>, van: usize, tot: usize) -> (r: Vec<char>)
    requires
        van <= tot <= v@.len(),
    ensures
        r@ == v@.subrange(van as int, tot as int),
{
    let mut r: Vec<char> = Vec::new();
    let mut i = van;
    while i < tot
        invariant
            van <= i <= tot <= v@.len(),
            r@ == v@.subrange(van as int, i as int),
        decreases tot - i,
    {
        r.push(v[i]);
        assert(v@.subrange(van as int, i + 1) == v@.subrange(van as int, i as int).push(v@[i as int]));
        i = i + 1;
    }
    r
}

/// `c`, with a line break turned into a space.
pub open spec fn plat_teken(c: char) -> char {
    if c == '\n' || c == '\r' {
        ' '
    } else {
        c
    }
}

/// `s` on one line: every line break turned into a space.
pub open spec fn plat(s: Seq<char>) -> Seq<char> {
    s.map_values(|c: char| plat_teken(c))
}

/// `s` on one line: every line break turned into a space.
pub fn maak_plat(s: &str) -> (r: String)
    ensures
        r@ == plat(s@),
{
    let v = tekens(s);
    let mut r = String::new();
    let mut i: usize = 0;
    while i < v.len()
        invariant
            i <= v@.len(),
            v@ == s@,
            r@ == plat(v@.subrange(0, i as int)),
        decreases v.len() - i,
    {
        let c = v[i];
        voeg_teken_toe(&mut r, if c == '\n' || c == '\r' { ' ' } else { c });
        assert(plat(v@.subrange(0, i + 1)) =~= plat(v@.subrange(0, i as int)).push(plat_teken(v@[i as int])));
        i = i + 1;
    }
    assert(v@.subrange(0, v@.len() as int) == v@);
    r
}

/// Relies on `String::push`: appends one character.
#[verifier::external_body]
pub(crate) fn voeg_teken_toe(s: &mut String, c: char)
    ensures
        final(s)@ == old(s)@.push(c),
{
    s.push(c);
}

/// The characters of `s`, in order.
pub fn tekens(s: &str) -> (r: Vec<char>)
    ensures
        r@ == s@,
{
    let mut r: Vec<char> = Vec::new();
    for c in it: s.chars()
        invariant
            r@ == it.seq().subrange(0, it.index() as int),
            it.seq() == s@,
    {
        r.push(c);
    }
    r
}

/// The characters `v[van..tot]` as a `String`.
pub fn tekst_uit(v: &Vec<char>, van: usize, tot: usize) -> (r: String)
    requires
        van <= tot <= v@.len(),
    ensures
        r@ == v@.subrange(van as int, tot as int),
{
    let mut r = String::new();
    let mut i = van;
    while i < tot
        invariant
            van <= i <= tot <= v@.len(),
            r@ == v@.subrange(van as int, i as int),
        decreases tot - i,
    {
        voeg_teken_toe(&mut r, v[i]);
        assert(v@.subrange(van as int, i + 1) == v@.subrange(van as int, i as int).push(v@[i as int]));
        i = i + 1;
    }
    r
}

/// Whether `s` and `t` hold the same characters.
pub fn zelfde_tekst(s: &str, t: &str) -> (r: bool)
    ensures
        r == (s@ == t@),
{
    let a = tekens(s);
    let b = tekens(t);
    if a.len() != b.len() {
        return false;
    }
    let mut i: usize = 0;
    while i < a.len()
        invariant
            a@ == s@,
            b@ == t@,
            a@.len() == b@.len(),
            i <= a@.len(),
            a@.subrange(0, i as int) == b@.subrange(0, i as int),
        decreases a.len() - i,
    {
        if a[i] != b[i] {
            assert(a@[i as int] != b@[i as int]);
            return false;
        }
        assert(a@.subrange(0, i + 1) == a@.subrange(0, i as int).push(a@[i as int]));
        assert(b@.subrange(0, i + 1) == b@.subrange(0, i as int).push(b@[i as int]));
        i = i + 1;
    }
    assert(a@ == a@.subrange(0, a@.len() as int));
    assert(b@ == b@.subrange(0, b@.len() as int));
    true
}

/// Whether `p` occurs in `v` at position `i`.
pub fn staat_op_in(v: &Vec<char>, p: &Vec<char>, i: usize) -> (r: bool)
    ensures
        r == staat_op(v@, p@, i as int),
{
    if p.len() > v.len() || i > v.len() - p.len() {
        return false;
    }
    let mut j: usize = 0;
    while j < p.len()
        invariant
            i + p@.len() <= v@.len() <= usize::MAX,
            j <= p@.len(),
            v@.subrange(i as int, i + j) == p@.subrange(0, j as int),
        decreases p.len() - j,
    {
        assert(i + j < v@.len());
        if v[i + j] != p[j] {
            assert(v@.subrange(i as int, i + p@.len())[j as int] != p@[j as int]);
            return false;
        }
        assert(v@.subrange(i as int, i + j + 1) == v@.subrange(i as int, i + j).push(v@[i + j]));
        assert(p@.subrange(0, j + 1) == p@.subrange(0, j as int).push(p@[j as int]));
        j = j + 1;
    }
    assert(p@ == p@.subrange(0, p@.len() as int));
    true
}

/// Whether `p` occurs anywhere in `v`.
pub fn bevat_in(v: &Vec<char>, p: &Vec<char>) -> (r: bool)
    ensures
        r == bevat(v@, p@),
{
    if p.len() > v.len() {
        assert(forall|i: int| !#[trigger] staat_op(v@, p@, i));
        return false;
    }
    if p.len() == 0 {
        assert(v@.subrange(0, 0) == p@);
        assert(staat_op(v@, p@, 0));
        return true;
    }
    let mut i: usize = 0;
    while i <= v.len() - p.len()
        invariant
            1 <= p@.len() <= v@.len() <= usize::MAX,
            i <= v@.len() - p@.len() + 1,
            forall|k: int| 0 <= k < i ==> !#[trigger] staat_op(v@, p@, k),
        decreases v.len() - p.len() + 1 - i,
    {
        if staat_op_in(v, p, i) {
            return true;
        }
        i = i + 1;
    }
    assert(forall|k: int| !#[trigger] staat_op(v@, p@, k));
    false
}

/// The decimal digit character for `d`.
pub fn cijfer_teken(d: u64) -> (c: char)
    requires
        d < 10,
    ensures
        c == cijfer(d as int),
{
    if d == 0 {
        '0'
    } else if d == 1 {
        '1'
    } else if d == 2 {
        '2'
    } else if d == 3 {
        '3'
    } else if d == 4 {
        '4'
    } else if d == 5 {
        '5'
    } else if d == 6 {
        '6'
    } else if d == 7 {
        '7'
    } else if d == 8 {
        '8'
    } else {
        '9'
    }
}

/// Appends the decimal notation of `n` to `s`.
pub fn schrijf_decimaal(s: &mut String, n: u64)
    ensures
        final(s)@ == old(s)@ + decimaal(n as nat),
    decreases n,
{
    if n >= 10 {
        schrijf_decimaal(s, n / 10);
    }
    voeg_teken_toe(s, cijfer_teken(n % 10));
    if n >= 10 {
        assert(final(s)@ == old(s)@ + decimaal(n as nat));
    } else {
        assert(decimaal(n as nat) == seq![cijfer(n as int)]);
        assert(final(s)@ == old(s)@ + decimaal(n as nat));
    }
}

/// Appends the decimal notation of `n` to `s`, with a `-` when it is negative.
pub fn schrijf_decimaal_int(s: &mut String, n: i64)
    ensures
        final(s)@ == old(s)@ + decimaal_int(n as int),
{
    if n < 0 {
        voeg_teken_toe(s, '-');
        let a: u64 = if n == i64::MIN {
            9223372036854775808u64
        } else {
            (-n) as u64
        };
        schrijf_decimaal(s, a);
        assert(final(s)@ == old(s)@ + decimaal_int(n as int));
    } else {
        schrijf_decimaal(s, n as u64);
    }
}

} // verus!
