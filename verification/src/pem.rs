use vstd::prelude::*;
use crate::outside::{pem_sections, read_pem_sections};

verus! {

/// One section that reading a PEM text yields.
#[derive(Debug)]
pub enum PemSection {
    /// An X.509 certificate, as DER bytes.
    Certificate(Vec<u8>),
    /// A section of another kind.
    Other,
    /// A section that could not be read.
    Unreadable,
}

/// A section of a PEM text, as bytes.
pub enum PemSectionView {
    Certificate(Seq<u8>),
    Other,
    Unreadable,
}

impl View for PemSection {
    type V = PemSectionView;

    open spec fn view(&self) -> PemSectionView {
        match self {
            PemSection::Certificate(c) => PemSectionView::Certificate(c@),
            PemSection::Other => PemSectionView::Other,
            PemSection::Unreadable => PemSectionView::Unreadable,
        }
    }
}

/// The certificates among the sections, in order; other and unreadable
/// sections are passed over.
pub open spec fn certificates_in(s: Seq<PemSectionView>) -> Seq<Seq<u8>>
    decreases s.len(),
{
    if s.len() == 0 {
        Seq::empty()
    } else {
        let rest = certificates_in(s.drop_last());
        match s.last() {
            PemSectionView::Certificate(c) => rest.push(c),
            _ => rest,
        }
    }
}

/// How many of the sections are certificates.
pub open spec fn certificate_count(s: Seq<PemSectionView>) -> nat
    decreases s.len(),
{
    if s.len() == 0 {
        0
    } else {
        certificate_count(s.drop_last()) + if s.last() is Certificate {
            1nat
        } else {
            0nat
        }
    }
}

proof fn lemma_certificate_count_grows(s: Seq<PemSectionView>, j: int, k: int)
    requires
        0 <= j <= k <= s.len(),
    ensures
        certificate_count(s.take(j)) <= certificate_count(s.take(k)),
        j < k && s[j] is Certificate ==> certificate_count(s.take(j)) < certificate_count(s.take(k)),
    decreases k,
{
    if j < k {
        lemma_certificate_count_grows(s, j, k - 1);
        assert(s.take(k).drop_last() =~= s.take(k - 1));
        assert(s.take(k).last() == s[k - 1]);
    }
}

/// Every certificate section is kept, in order: there are as many
/// certificates as certificate sections, and the certificate of the section
/// at `i` stands at the place given by the number of certificate sections
/// before `i`.
pub proof fn lemma_certificates_in_keeps_each(s: Seq<PemSectionView>)
    ensures
        certificates_in(s).len() == certificate_count(s),
        forall|i: int|
            0 <= i < s.len() ==> (#[trigger] s[i] matches PemSectionView::Certificate(c)
                ==> certificates_in(s)[certificate_count(s.take(i)) as int] == c),
    decreases s.len(),
{
    if s.len() > 0 {
        let n = s.len() as int;
        let t = s.drop_last();
        lemma_certificates_in_keeps_each(t);
        assert forall|i: int| 0 <= i < s.len() implies (#[trigger] s[i] matches
            PemSectionView::Certificate(c) ==> certificates_in(s)[certificate_count(s.take(i))
            as int] == c) by {
            if s[i] is Certificate {
                if i < n - 1 {
                    assert(t[i] == s[i]);
                    assert(s.take(i) =~= t.take(i));
                    lemma_certificate_count_grows(t, i, n - 1);
                    assert(t.take(n - 1) =~= t);
                } else {
                    assert(s.take(i) =~= t);
                }
            }
        }
    }
}

/// The DER bytes of a list of certificates.
pub open spec fn ders(v: Seq<Vec<u8>>) -> Seq<Seq<u8>> {
    v.map_values(|c: Vec<u8>| c@)
}

/// Every X.509 certificate that a PEM text holds, in order.
pub fn pem_certificates(pem: &[u8]) -> (r: Vec<Vec<u8>>)
    ensures
        ders(r@) == certificates_in(pem_sections(pem@)),
        r@.len() == certificate_count(pem_sections(pem@)),
        forall|i: int|
            0 <= i < pem_sections(pem@).len() ==> (#[trigger] pem_sections(pem@)[i] matches
                PemSectionView::Certificate(c) ==> r@[certificate_count(
                pem_sections(pem@).take(i),
            ) as int]@ == c),
{
    let sections = read_pem_sections(pem);
    let ghost all = sections@.map_values(|s: PemSection| s@);
    let mut out: Vec<Vec<u8>> = Vec::new();
    let mut i: usize = 0;
    while i < sections.len()
        invariant
            i <= sections@.len(),
            all == sections@.map_values(|s: PemSection| s@),
            ders(out@) == certificates_in(all.take(i as int)),
        decreases sections@.len() - i,
    {
        proof {
            assert(all.take(i + 1).drop_last() =~= all.take(i as int));
            assert(all.take(i + 1).last() == sections@[i as int]@);
        }
        match &sections[i] {
            PemSection::Certificate(c) => {
                out.push(c.clone());
                assert(ders(out@) =~= certificates_in(all.take(i + 1)));
            },
            _ => {
                assert(ders(out@) =~= certificates_in(all.take(i + 1)));
            },
        }
        i = i + 1;
    }
    assert(all.take(sections@.len() as int) =~= all);
    proof {
        lemma_certificates_in_keeps_each(all);
        assert forall|i: int|
            0 <= i < all.len() implies (#[trigger] all[i] matches PemSectionView::Certificate(c)
                ==> out@[certificate_count(all.take(i)) as int]@ == c) by {
            if all[i] is Certificate {
                let k = certificate_count(all.take(i)) as int;
                lemma_certificate_count_grows(all, i, all.len() as int);
                assert(all.take(all.len() as int) =~= all);
                assert(ders(out@)[k] == out@[k]@);
            }
        }
    }
    out
}

} // verus!
