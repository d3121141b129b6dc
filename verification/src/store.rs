//! The project store: a verified model of the `projects` table, holding
//! its rows in insertion order and assigning `id` and `created_at` the way
//! the server does — each new row gets the next identifier and a creation
//! stamp strictly above every earlier one.

use vstd::prelude::*;

use crate::pagination::{offset_of, page_or_default, size_or_default, window};
use crate::project::{PersistenceError, Project, ProjectView};
use crate::project::views_of;

verus! {

/// The order a listing reads the table in: newest row first.
pub open spec fn listing_of(rows: Seq<ProjectView>) -> Seq<ProjectView> {
    rows.reverse()
}

/// What a listing returns for a table state and the two optional
/// arguments: the window of the newest-first listing at the computed
/// offset, or the storage error when the effective page size or offset is
/// negative — the backing engine rejects a negative limit or offset.
pub open spec fn list_spec(
    rows: Seq<ProjectView>,
    page: Option<i32>,
    page_size: Option<i32>,
) -> Result<Seq<ProjectView>, PersistenceError> {
    let ps = size_or_default(page_size);
    let off = offset_of(page_or_default(page), ps);
    if ps < 0 || off < 0 {
        Err(PersistenceError)
    } else {
        Ok(window(listing_of(rows), off, ps))
    }
}

/// The `projects` table. Rows are kept oldest first; a listing reads them
/// newest first.
pub struct ProjectStore {
    rows: Vec<Project>,
}

impl View for ProjectStore {
    type V = Seq<ProjectView>;

    /// The table state: the images of its rows, oldest first.
    closed spec fn view(&self) -> Seq<ProjectView> {
        views_of(self.rows@)
    }
}

impl ProjectStore {
    /// Server-side well-formedness: the row inserted `i`-th carries
    /// identifier and creation stamp `i + 1`, so identifiers are unique
    /// and creation stamps strictly increase in insertion order.
    pub open spec fn wf(&self) -> bool {
        forall|i: int|
            0 <= i < self@.len() ==> (#[trigger] self@[i]).id == i + 1 && self@[i].created_at == i
                + 1
    }

    /// An empty table.
    pub fn new() -> (s: ProjectStore)
        ensures
            s.wf(),
            s@ == Seq::<ProjectView>::empty(),
    {
        let s = ProjectStore { rows: Vec::new() };
        proof {
            assert(s@ =~= Seq::<ProjectView>::empty());
        }
        s
    }

    /// The total number of rows.
    pub fn len(&self) -> (n: usize)
        ensures
            n == self@.len(),
    {
        self.rows.len()
    }

    /// Insert one row. The store assigns the identifier and the creation
    /// stamp — both server-generated — and hands back the fully populated
    /// record, the round-trip read of the generated columns. The new
    /// row's creation stamp is strictly above every earlier one.
    pub fn create_project(&mut self, name: &str, description: &str) -> (r: Project)
        requires
            old(self).wf(),
            old(self)@.len() + 1 <= i64::MAX,
        ensures
            final(self).wf(),
            final(self)@ == old(self)@.push(r@),
            r@.name == name@,
            r@.description == description@,
            r@.id == old(self)@.len() + 1,
            r@.created_at == old(self)@.len() + 1,
            forall|i: int|
                0 <= i < old(self)@.len() ==> (#[trigger] old(self)@[i]).created_at
                    < r@.created_at,
    {
        let n = self.rows.len();
        let stamp: i64 = (n as i64) + 1;
        let row = Project {
            id: stamp,
            name: name.to_owned(),
            description: description.to_owned(),
            created_at: stamp,
        };
        let r = row.duplicate();
        self.rows.push(row);
        proof {
            assert(self@ =~= old(self)@.push(r@));
        }
        r
    }

    /// Read one page of the listing, newest row first. The result is
    /// exactly `list_spec` of the table state and the arguments: `Ok`
    /// with the selected window whenever the effective page size and
    /// offset are non-negative — in particular an offset at or past the
    /// end gives `Ok` with an empty page, never an error — and the
    /// storage error otherwise. The table itself is not touched.
    pub fn get_projects(&self, page: Option<i32>, page_size: Option<i32>) -> (r: Result<
        Vec<Project>,
        PersistenceError,
    >)
        ensures
            match r {
                Ok(v) => list_spec(self@, page, page_size) == Ok::<_, PersistenceError>(
                    views_of(v@),
                ),
                Err(e) => list_spec(self@, page, page_size) == Err::<Seq<ProjectView>, _>(e),
            },
    {
        let (lim, off) = crate::pagination::limit_offset(page, page_size);
        if lim < 0 || off < 0 {
            return Err(PersistenceError);
        }
        let t = self.rows.len();
        let ghost listing = listing_of(self@);
        if (off as u64) >= (t as u64) {
            let out: Vec<Project> = Vec::new();
            proof {
                assert(views_of(out@) =~= window(listing, off as int, lim as int));
            }
            return Ok(out);
        }
        let start = off as usize;
        let remaining = t - start;
        let count: usize = if (lim as u64) < (remaining as u64) {
            lim as usize
        } else {
            remaining
        };
        let mut out: Vec<Project> = Vec::new();
        let mut i: usize = 0;
        while i < count
            invariant
                0 <= i <= count,
                start + count <= t,
                start as int == off as int,
                0 <= off,
                0 <= lim,
                count as int == if off as int + lim as int <= t as int {
                    lim as int
                } else {
                    t as int - off as int
                },
                t == self.rows@.len(),
                t == listing.len(),
                listing == listing_of(self@),
                self@ == views_of(self.rows@),
                views_of(out@) =~= listing.subrange(start as int, start as int + i as int),
            decreases count - i,
        {
            let idx = t - 1 - start - i;
            let row = (&self.rows[idx]).duplicate();
            proof {
                assert(self@[idx as int] == self.rows@[idx as int]@);
                assert(listing[start as int + i as int] == self@[t - 1 - start - i]);
                assert(row@ == listing[start as int + i as int]);
            }
            let ghost prev = out@;
            out.push(row);
            proof {
                let lo = start as int;
                let hi = lo + i + 1;
                assert(views_of(prev).len() == prev.len());
                assert(prev.len() == i);
                assert(out@.len() == i + 1);
                assert forall|j: int| 0 <= j < i + 1 implies views_of(out@)[j]
                    == listing.subrange(lo, hi)[j] by {
                    assert(views_of(out@)[j] == out@[j]@);
                    if j < i {
                        assert(out@[j] == prev[j]);
                        assert(views_of(prev)[j] == prev[j]@);
                        assert(views_of(prev)[j] == listing.subrange(lo, lo + i)[j]);
                    }
                }
                assert(views_of(out@) =~= listing.subrange(lo, hi));
            }
            i += 1;
        }
        proof {
            assert(views_of(out@) =~= window(listing, off as int, lim as int));
        }
        Ok(out)
    }
}

/// Creation stamps strictly increase in insertion order.
pub open spec fn stamps_increasing(rows: Seq<ProjectView>) -> bool {
    forall|i: int, j: int|
        #![trigger rows[i], rows[j]]
        0 <= i < j < rows.len() ==> rows[i].created_at < rows[j].created_at
}

/// A well-formed store's creation stamps strictly increase in insertion
/// order.
pub proof fn lemma_wf_stamps(s: &ProjectStore)
    requires
        s.wf(),
    ensures
        stamps_increasing(s@),
{
    assert forall|i: int, j: int|
        #![trigger s@[i], s@[j]]
        0 <= i < j < s@.len() implies s@[i].created_at < s@[j].created_at by {
        assert(s@[i].created_at == i + 1);
        assert(s@[j].created_at == j + 1);
    }
}

/// A freshly created record is immediately visible: after appending a
/// record whose creation stamp is above every earlier one, listing the
/// first page with any positive page size succeeds, returns that record
/// first, and its creation stamp is the maximum over the whole table.
pub proof fn lemma_create_then_list(rows: Seq<ProjectView>, r: ProjectView, page_size: i32)
    requires
        page_size >= 1,
        forall|i: int| 0 <= i < rows.len() ==> (#[trigger] rows[i]).created_at < r.created_at,
    ensures
        list_spec(rows.push(r), Some(1i32), Some(page_size)) matches Ok(out) && out.len() >= 1
            && out[0] == r,
        forall|i: int|
            0 <= i < rows.push(r).len() ==> (#[trigger] rows.push(r)[i]).created_at
                <= r.created_at,
{
    let s = rows.push(r);
    let n = rows.len() as int;
    let listing = listing_of(s);
    assert(offset_of(page_or_default(Some(1i32)), page_size as int) == 0);
    assert(listing.len() == n + 1);
    assert(listing[0] == s[n]);
    assert(s[n] == r);
    let out = window(listing, 0, page_size as int);
    assert(out[0] == listing[0]);
}

/// Listing is a pure read: it takes the store by shared reference and
/// its outcome is a function of the table state and the arguments alone,
/// so two listings with identical arguments and no intervening write
/// return identical results.
pub proof fn lemma_list_idempotent(
    rows: Seq<ProjectView>,
    page: Option<i32>,
    page_size: Option<i32>,
    r1: Result<Seq<ProjectView>, PersistenceError>,
    r2: Result<Seq<ProjectView>, PersistenceError>,
)
    requires
        r1 == list_spec(rows, page, page_size),
        r2 == list_spec(rows, page, page_size),
    ensures
        r1 == r2,
{
}

/// Paging past the end of the table is not an error: whenever the
/// effective page and page size are non-negative and the offset reaches
/// or passes the row count, the listing succeeds with an empty page.
pub proof fn lemma_list_past_end(rows: Seq<ProjectView>, page: Option<i32>, page_size: Option<i32>)
    requires
        page_or_default(page) >= 1,
        size_or_default(page_size) >= 0,
        offset_of(page_or_default(page), size_or_default(page_size)) >= rows.len(),
    ensures
        list_spec(rows, page, page_size) == Ok::<Seq<ProjectView>, PersistenceError>(
            Seq::empty(),
        ),
{
    let p = page_or_default(page);
    let ps = size_or_default(page_size);
    assert((p - 1) * ps >= 0) by (nonlinear_arith)
        requires
            p >= 1,
            ps >= 0,
    ;
}

/// Every page a listing returns is ordered by creation stamp, newest
/// first: within one result, no record was created after a record that
/// stands before it.
pub proof fn lemma_list_sorted_desc(
    rows: Seq<ProjectView>,
    page: Option<i32>,
    page_size: Option<i32>,
)
    requires
        stamps_increasing(rows),
        list_spec(rows, page, page_size) is Ok,
    ensures
        ({
            let out = list_spec(rows, page, page_size)->Ok_0;
            forall|i: int, j: int|
                #![trigger out[i], out[j]]
                0 <= i < j < out.len() ==> out[i].created_at >= out[j].created_at
        }),
{
    let n = rows.len() as int;
    let off = offset_of(page_or_default(page), size_or_default(page_size));
    let listing = listing_of(rows);
    let out = list_spec(rows, page, page_size)->Ok_0;
    assert forall|i: int, j: int|
        #![trigger out[i], out[j]]
        0 <= i < j < out.len() implies out[i].created_at >= out[j].created_at by {
        assert(out[i] == listing[off + i]);
        assert(out[j] == listing[off + j]);
        assert(listing[off + i] == rows[n - 1 - off - i]);
        assert(listing[off + j] == rows[n - 1 - off - j]);
        assert(rows[n - 1 - off - j].created_at < rows[n - 1 - off - i].created_at);
    }
}

} // verus!
