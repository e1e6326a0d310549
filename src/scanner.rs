//! Scan results, pages, and the decisions of a full scan and of a refinement.

use crate::data_type::DataType;
use crate::decimal::int_text;
use crate::matcher::{all_within_page, lemma_page_boundary, page_hits, slot_matches, FloatBounds};
use crate::query::{Comparator, Node};
use vstd::prelude::*;

verus! {

/// One match: where it was found, the shape it was read as, and the bytes
/// found there.
#[derive(Clone)]
pub struct SearchResult {
    pub address: usize,
    pub data_type: DataType,
    pub value: Vec<u8>,
}

impl SearchResult {
    /// Decimal text of an integer result's value. Float results are rendered
    /// by the application, which owns float formatting.
    pub fn value_to_string(&self) -> (r: String)
        requires
            self.data_type.is_int(),
            self.value@.len() == self.data_type.spec_size(),
        ensures
            r@ == int_text(self.data_type.int_value(self.value@)),
    {
        self.data_type.from_bytes(self.value.clone())
    }
}

/// The mathematical content of a `SearchResult`.
pub struct Hit {
    pub address: int,
    pub data_type: DataType,
    pub value: Seq<u8>,
}

impl View for SearchResult {
    type V = Hit;

    open spec fn view(&self) -> Hit {
        Hit { address: self.address as int, data_type: self.data_type, value: self.value@ }
    }
}

/// The contents of a list of results.
pub open spec fn hits_of(rs: Seq<SearchResult>) -> Seq<Hit> {
    rs.map_values(|r: SearchResult| r@)
}

/// Appends `r` to `out`.
pub fn push_result(out: &mut Vec<SearchResult>, r: SearchResult)
    ensures
        hits_of(final(out)@) == hits_of(old(out)@).push(r@),
{
    let ghost h = r@;
    out.push(r);
    assert(hits_of(out@) =~= hits_of(old(out)@).push(h));
}

/// One committed, writable region of a process's address space.
#[derive(Clone, Copy)]
pub struct VirtualPage {
    pub start: usize,
    pub size: usize,
}


/// Largest page a full scan reads in one piece: 512 MiB.
pub const MAX_PAGE_BYTES: usize = 0x2000_0000;

/// Why a page was left out of a full scan.
#[derive(Clone, Copy, PartialEq, Eq, Structural, Debug)]
pub enum ScanError {
    /// The page is larger than `MAX_PAGE_BYTES`; partial-page scanning is not
    /// done.
    OversizePage,
}

/// The bytes a read gave, if it succeeded.
pub open spec fn read_view(r: Option<Vec<u8>>) -> Option<Seq<u8>> {
    match r {
        Some(v) => Some(v@),
        None => None,
    }
}

/// What a full scan takes from one page: `mem` is what reading the whole
/// page gave. A read that failed or came back short counts as an empty page.
pub open spec fn region_hits(
    op: Comparator,
    as_int: Option<i64>,
    floats: Option<FloatBounds>,
    page: VirtualPage,
    mem: Option<Seq<u8>>,
) -> Seq<Hit> {
    match mem {
        Some(m) => if m.len() == page.size {
            page_hits(m, page.start as int, op, as_int, floats, m.len() / 4)
        } else {
            seq![]
        },
        None => seq![],
    }
}

/// One step of a full scan: the hits of `page`, given what reading it gave.
pub fn scan_region(
    query: &Node,
    floats: &Option<FloatBounds>,
    page: &VirtualPage,
    mem: Option<Vec<u8>>,
) -> (r: Result<Vec<SearchResult>, ScanError>)
    requires
        query.wf(),
        page.start + page.size <= usize::MAX,
    ensures
        page.size > MAX_PAGE_BYTES ==> r == Err::<Vec<SearchResult>, ScanError>(
            ScanError::OversizePage,
        ),
        page.size <= MAX_PAGE_BYTES ==> (r matches Ok(v) && hits_of(v@) == region_hits(
            query.spec_op(),
            query.spec_constant().as_int,
            *floats,
            *page,
            read_view(mem),
        )),
{
    if page.size > MAX_PAGE_BYTES {
        return Err(ScanError::OversizePage);
    }
    match mem {
        Some(m) => {
            if m.len() == page.size {
                Ok(query.scan_page(m.as_slice(), page.start, floats))
            } else {
                let v: Vec<SearchResult> = Vec::new();
                assert(hits_of(v@) =~= seq![]);
                Ok(v)
            }
        },
        None => {
            let v: Vec<SearchResult> = Vec::new();
            assert(hits_of(v@) =~= seq![]);
            Ok(v)
        },
    }
}

/// Page boundary: a full scan never reports an address outside
/// `[page.start, page.start + page.size - size_of(type)]`.
pub proof fn lemma_region_boundary(
    op: Comparator,
    as_int: Option<i64>,
    floats: Option<FloatBounds>,
    page: VirtualPage,
    mem: Option<Seq<u8>>,
)
    ensures
        forall|i: int|
            0 <= i < region_hits(op, as_int, floats, page, mem).len() ==> {
                let h = #[trigger] region_hits(op, as_int, floats, page, mem)[i];
                page.start <= h.address && h.address <= page.start + page.size
                    - h.data_type.spec_size()
            },
{
    if let Some(m) = mem {
        if m.len() == page.size {
            lemma_page_boundary(m, page.start as int, op, as_int, floats, m.len() / 4);
            assert(all_within_page(
                m.len() as int,
                page.start as int,
                region_hits(op, as_int, floats, page, mem),
            ));
        }
    }
}

/// A prior hit after re-reading its slot: kept, with the fresh bytes, when
/// the read succeeded and the slot still matches.
pub open spec fn refine_hit(
    op: Comparator,
    as_int: Option<i64>,
    floats: Option<FloatBounds>,
    prior: Hit,
    fresh: Option<Seq<u8>>,
) -> Seq<Hit> {
    match fresh {
        Some(b) => if b.len() == prior.data_type.spec_size() && slot_matches(
            op,
            as_int,
            floats,
            prior.data_type,
            b,
        ) {
            seq![Hit { address: prior.address, data_type: prior.data_type, value: b }]
        } else {
            seq![]
        },
        None => seq![],
    }
}

/// A refinement of the first `n` prior hits, `fresh[i]` being what re-reading
/// the slot of `prior[i]` gave.
pub open spec fn refine_hits(
    op: Comparator,
    as_int: Option<i64>,
    floats: Option<FloatBounds>,
    prior: Seq<Hit>,
    fresh: Seq<Option<Seq<u8>>>,
    n: nat,
) -> Seq<Hit>
    decreases n,
{
    if n == 0 {
        seq![]
    } else {
        refine_hits(op, as_int, floats, prior, fresh, (n - 1) as nat) + refine_hit(
            op,
            as_int,
            floats,
            prior[n - 1],
            fresh[n - 1],
        )
    }
}

/// Re-tests one prior result against the bytes its slot holds now.
pub fn refine_one(
    query: &Node,
    floats: &Option<FloatBounds>,
    prior: &SearchResult,
    fresh: Option<Vec<u8>>,
) -> (r: Option<SearchResult>)
    requires
        query.wf(),
    ensures
        refine_hit(
            query.spec_op(),
            query.spec_constant().as_int,
            *floats,
            prior@,
            read_view(fresh),
        ) == (match r {
            Some(h) => seq![h@],
            None => seq![],
        }),
{
    match fresh {
        Some(b) => {
            if query.test_single(b.as_slice(), prior.data_type, floats) {
                Some(SearchResult { address: prior.address, data_type: prior.data_type, value: b })
            } else {
                None
            }
        },
        None => None,
    }
}

/// A refinement: each prior result is kept, with its fresh bytes, when
/// re-reading its slot succeeded and the bytes still match. `fresh[i]` is
/// what re-reading the slot of `prior[i]` gave.
pub fn refine(
    query: &Node,
    floats: &Option<FloatBounds>,
    prior: &Vec<SearchResult>,
    fresh: &Vec<Option<Vec<u8>>>,
) -> (r: Vec<SearchResult>)
    requires
        query.wf(),
        fresh@.len() == prior@.len(),
    ensures
        hits_of(r@) == refine_hits(
            query.spec_op(),
            query.spec_constant().as_int,
            *floats,
            hits_of(prior@),
            fresh@.map_values(|f: Option<Vec<u8>>| read_view(f)),
            prior@.len(),
        ),
{
    let ghost op = query.spec_op();
    let ghost as_int = query.spec_constant().as_int;
    let ghost fv = fresh@.map_values(|f: Option<Vec<u8>>| read_view(f));
    let mut out: Vec<SearchResult> = Vec::new();
    let mut i: usize = 0;
    let ghost fresh0 = fresh@;
    while i < prior.len()
        invariant
            query.wf(),
            op == query.spec_op(),
            as_int == query.spec_constant().as_int,
            i <= prior@.len(),
            fresh@.len() == prior@.len(),
            fv == fresh0.map_values(|f: Option<Vec<u8>>| read_view(f)),
            fresh@ == fresh0,
            fresh0.len() == prior@.len(),
            hits_of(out@) == refine_hits(op, as_int, *floats, hits_of(prior@), fv, i as nat),
        decreases prior@.len() - i,
    {
        let f = match &fresh[i] {
            Some(b) => Some(b.clone()),
            None => None,
        };
        let kept = refine_one(query, floats, &prior[i], f);
        let ghost before = hits_of(out@);
        proof {
            assert(hits_of(prior@)[i as int] == prior@[i as int]@);
            assert(fv[i as int] == read_view(fresh0[i as int]));
        }
        match kept {
            Some(h) => push_result(&mut out, h),
            None => {},
        }
        proof {
            assert(hits_of(out@) =~= before + refine_hit(
                op,
                as_int,
                *floats,
                hits_of(prior@)[i as int],
                fv[i as int],
            ));
        }
        i = i + 1;
    }
    out
}


/// A hit still holds bytes of its shape that match the query.
pub open spec fn still_matches(
    op: Comparator,
    as_int: Option<i64>,
    floats: Option<FloatBounds>,
    h: Hit,
) -> bool {
    h.value.len() == h.data_type.spec_size() && slot_matches(
        op,
        as_int,
        floats,
        h.data_type,
        h.value,
    )
}

/// Refinement monotonicity: every hit a refinement keeps has the address and
/// the shape of one of the prior hits, so the refined address set is a subset
/// of the prior one.
pub proof fn lemma_refinement_subset(
    op: Comparator,
    as_int: Option<i64>,
    floats: Option<FloatBounds>,
    prior: Seq<Hit>,
    fresh: Seq<Option<Seq<u8>>>,
    n: nat,
)
    requires
        n <= prior.len(),
        n <= fresh.len(),
    ensures
        forall|i: int|
            0 <= i < refine_hits(op, as_int, floats, prior, fresh, n).len() ==> exists|j: int|
                0 <= j < n && (#[trigger] refine_hits(op, as_int, floats, prior, fresh, n)[i]).address
                    == prior[j].address && refine_hits(op, as_int, floats, prior, fresh, n)[i].data_type
                    == prior[j].data_type,
    decreases n,
{
    if n > 0 {
        lemma_refinement_subset(op, as_int, floats, prior, fresh, (n - 1) as nat);
        let a = refine_hits(op, as_int, floats, prior, fresh, (n - 1) as nat);
        let b = refine_hit(op, as_int, floats, prior[n - 1], fresh[n - 1]);
        assert forall|i: int| 0 <= i < (a + b).len() implies exists|j: int|
            0 <= j < n && (#[trigger] (a + b)[i]).address == prior[j].address && (a
                + b)[i].data_type == prior[j].data_type by {
            if i < a.len() {
                assert((a + b)[i] == a[i]);
            } else {
                assert((a + b)[i] == b[i - a.len()]);
                assert((a + b)[i].address == prior[n - 1].address);
            }
        }
    }
}

/// Every hit a refinement keeps still matches the query.
proof fn lemma_refined_match(
    op: Comparator,
    as_int: Option<i64>,
    floats: Option<FloatBounds>,
    prior: Seq<Hit>,
    fresh: Seq<Option<Seq<u8>>>,
    n: nat,
)
    ensures
        forall|i: int|
            0 <= i < refine_hits(op, as_int, floats, prior, fresh, n).len() ==> still_matches(
                op,
                as_int,
                floats,
                #[trigger] refine_hits(op, as_int, floats, prior, fresh, n)[i],
            ),
    decreases n,
{
    if n > 0 {
        lemma_refined_match(op, as_int, floats, prior, fresh, (n - 1) as nat);
        let a = refine_hits(op, as_int, floats, prior, fresh, (n - 1) as nat);
        let b = refine_hit(op, as_int, floats, prior[n - 1], fresh[n - 1]);
        assert forall|i: int| 0 <= i < (a + b).len() implies still_matches(
            op,
            as_int,
            floats,
            #[trigger] (a + b)[i],
        ) by {
            if i < a.len() {
                assert((a + b)[i] == a[i]);
            } else {
                assert((a + b)[i] == b[i - a.len()]);
            }
        }
    }
}

/// Refining hits that still match, against the very bytes they hold, keeps
/// each of them as it is.
proof fn lemma_refine_unchanged(
    op: Comparator,
    as_int: Option<i64>,
    floats: Option<FloatBounds>,
    hits: Seq<Hit>,
    again: Seq<Option<Seq<u8>>>,
    n: nat,
)
    requires
        n <= hits.len(),
        again.len() == hits.len(),
        forall|j: int| 0 <= j < hits.len() ==> again[j] == Some(#[trigger] hits[j].value),
        forall|j: int| 0 <= j < hits.len() ==> still_matches(op, as_int, floats, #[trigger] hits[j]),
    ensures
        refine_hits(op, as_int, floats, hits, again, n) == hits.take(n as int),
    decreases n,
{
    if n > 0 {
        lemma_refine_unchanged(op, as_int, floats, hits, again, (n - 1) as nat);
        let h = hits[n - 1];
        assert(again[n - 1] == Some(h.value));
        assert(still_matches(op, as_int, floats, h));
        assert(refine_hit(op, as_int, floats, h, again[n - 1]) == seq![h]);
        assert(hits.take(n - 1) + seq![h] =~= hits.take(n as int));
    } else {
        assert(hits.take(0) =~= Seq::<Hit>::empty());
    }
}

/// Idempotent refinement: when no slot changed since a first refinement, a
/// second refinement with the same query gives exactly the first one's hits,
/// and so the same address set.
pub proof fn lemma_refinement_idempotent(
    op: Comparator,
    as_int: Option<i64>,
    floats: Option<FloatBounds>,
    prior: Seq<Hit>,
    fresh: Seq<Option<Seq<u8>>>,
    again: Seq<Option<Seq<u8>>>,
)
    requires
        fresh.len() == prior.len(),
        again.len() == refine_hits(op, as_int, floats, prior, fresh, prior.len()).len(),
        forall|j: int|
            0 <= j < again.len() ==> again[j] == Some(
                (#[trigger] refine_hits(op, as_int, floats, prior, fresh, prior.len())[j]).value,
            ),
    ensures
        ({
            let first = refine_hits(op, as_int, floats, prior, fresh, prior.len());
            refine_hits(op, as_int, floats, first, again, first.len()) == first
        }),
{
    let first = refine_hits(op, as_int, floats, prior, fresh, prior.len());
    lemma_refined_match(op, as_int, floats, prior, fresh, prior.len());
    lemma_refine_unchanged(op, as_int, floats, first, again, first.len());
    assert(first.take(first.len() as int) =~= first);
}

} // verus!
