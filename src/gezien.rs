//! The set of listing links that were already reported.
use vstd::prelude::*;
use crate::codec::{decodeer, decodeer_log, LogRecordView};
use crate::tekst::zelfde_tekst;

verus! {

/// The links of records.
pub open spec fn links_van(rs: Seq<LogRecordView>) -> Set<Seq<char>> {
    rs.map_values(|r: LogRecordView| r.link).to_set()
}

/// Links already reported; rebuilt from the log when the monitor starts.
pub struct GezienLijst {
    urls: Vec<String>,
}

impl View for GezienLijst {
    type V = Set<Seq<char>>;

    closed spec fn view(&self) -> Set<Seq<char>> {
        self.urls@.map_values(|u: String| u@).to_set()
    }
}

impl GezienLijst {
    /// An empty set.
    pub fn nieuw() -> (r: GezienLijst)
        ensures
            r@ == Set::<Seq<char>>::empty(),
    {
        let r = GezienLijst { urls: Vec::new() };
        assert(r.urls@.map_values(|u: String| u@) =~= Seq::<Seq<char>>::empty());
        r
    }

    /// Whether `url` was reported.
    pub fn bevat(&self, url: &str) -> (r: bool)
        ensures
            r == self@.contains(url@),
    {
        let ghost s = self.urls@.map_values(|u: String| u@);
        let mut i: usize = 0;
        while i < self.urls.len()
            invariant
                i <= self.urls@.len(),
                s == self.urls@.map_values(|u: String| u@),
                forall|k: int| 0 <= k < i ==> s[k] != url@,
            decreases self.urls.len() - i,
        {
            if zelfde_tekst(self.urls[i].as_str(), url) {
                assert(s[i as int] == url@);
                return true;
            }
            i = i + 1;
        }
        assert(!s.contains(url@));
        false
    }

    /// Marks `url` as reported; marking it again changes nothing.
    pub fn markeer(&mut self, url: String)
        ensures
            final(self)@ == old(self)@.insert(url@),
    {
        let ghost u = url@;
        if self.bevat(url.as_str()) {
            assert(self@ =~= old(self)@.insert(u));
            return;
        }
        self.urls.push(url);
        assert(self.urls@.map_values(|u: String| u@) =~= old(self).urls@.map_values(
            |u: String| u@,
        ).push(u));
        assert(self@ =~= old(self)@.insert(u)) by {
            let s0 = old(self).urls@.map_values(|u: String| u@);
            let s1 = self.urls@.map_values(|u: String| u@);
            assert forall|x: Seq<char>| s1.contains(x) <==> s0.contains(x) || x == u by {
                if s1.contains(x) {
                    let k = choose|k: int| 0 <= k < s1.len() && s1[k] == x;
                    if k < s0.len() {
                        assert(s0[k] == x);
                    }
                }
                if s0.contains(x) {
                    let k = choose|k: int| 0 <= k < s0.len() && s0[k] == x;
                    assert(s1[k] == x);
                }
                if x == u {
                    assert(s1[s0.len() as int] == x);
                }
            }
        }
    }

    /// Forgets every link.
    pub fn wis(&mut self)
        ensures
            final(self)@ == Set::<Seq<char>>::empty(),
    {
        self.urls = Vec::new();
        assert(self.urls@.map_values(|u: String| u@) =~= Seq::<Seq<char>>::empty());
    }

    /// Adds the link of every record in log `tekst`.
    pub fn voeg_log_toe(&mut self, tekst: &str)
        ensures
            final(self)@ == old(self)@.union(links_van(decodeer(tekst@))),
    {
        let records = decodeer_log(tekst);
        let ghost rs = decodeer(tekst@);
        let ghost begin = self@;
        let mut i: usize = 0;
        while i < records.len()
            invariant
                i <= records@.len(),
                rs == records@.map_values(|r: crate::codec::LogRecord| r@),
                self@ == begin.union(links_van(rs.subrange(0, i as int))),
            decreases records.len() - i,
        {
            let link = records[i].link.clone();
            proof {
                let voor = rs.subrange(0, i as int);
                let na = rs.subrange(0, i + 1);
                assert(na == voor.push(rs[i as int]));
                assert(na.map_values(|r: LogRecordView| r.link) =~= voor.map_values(
                    |r: LogRecordView| r.link,
                ).push(rs[i as int].link));
                assert(links_van(na) =~= links_van(voor).insert(rs[i as int].link)) by {
                    let a = voor.map_values(|r: LogRecordView| r.link);
                    let b = na.map_values(|r: LogRecordView| r.link);
                    assert forall|x: Seq<char>| b.contains(x) <==> a.contains(x) || x == rs[i as int].link by {
                        if b.contains(x) {
                            let k = choose|k: int| 0 <= k < b.len() && b[k] == x;
                            if k < a.len() {
                                assert(a[k] == x);
                            }
                        }
                        if a.contains(x) {
                            let k = choose|k: int| 0 <= k < a.len() && a[k] == x;
                            assert(b[k] == x);
                        }
                        if x == rs[i as int].link {
                            assert(b[a.len() as int] == x);
                        }
                    }
                }
            }
            self.markeer(link);
            i = i + 1;
        }
        assert(rs.subrange(0, rs.len() as int) == rs);
        assert(self@ =~= begin.union(links_van(rs)));
    }

    /// The links of every record in log `tekst`: the set that the monitor
    /// starts from.
    pub fn herbouw(tekst: &str) -> (r: GezienLijst)
        ensures
            r@ == links_van(decodeer(tekst@)),
    {
        let mut r = GezienLijst::nieuw();
        r.voeg_log_toe(tekst);
        assert(r@ =~= links_van(decodeer(tekst@)));
        r
    }
}

/// Reading a log a second time into the set that it was read into adds
/// nothing: rebuilding from a log twice gives the set that once gives.
pub proof fn lemma_herbouw_twee_keer(s: Set<Seq<char>>, tekst: Seq<char>)
    ensures
        s.union(links_van(decodeer(tekst))).union(links_van(decodeer(tekst))) == s.union(
            links_van(decodeer(tekst)),
        ),
        Set::<Seq<char>>::empty().union(links_van(decodeer(tekst))).union(
            links_van(decodeer(tekst)),
        ) == links_van(decodeer(tekst)),
{
    assert(s.union(links_van(decodeer(tekst))).union(links_van(decodeer(tekst))) =~= s.union(
        links_van(decodeer(tekst)),
    ));
    assert(Set::<Seq<char>>::empty().union(links_van(decodeer(tekst))).union(
        links_van(decodeer(tekst)),
    ) =~= links_van(decodeer(tekst)));
}

} // verus!
