//! The order of the session sidebar's rows: each configured folder with the
//! catalog entries it holds (shown when expanded), the ungrouped catalog
//! entries, ad-hoc sessions, then the runtime rows that no catalog entry
//! claimed and that do not repeat a shown endpoint.
use vstd::prelude::*;

use crate::text::str_eq;
use crate::workspace::{
    endpoint_is, leftover_runtime_row_is_duplicate, row_views, EndpointKey,
    RuntimeRowClaimIdentity, RuntimeRowView,
};

verus! {

/// One row of the session sidebar, by what it shows.
#[derive(Clone, Copy, Debug, PartialEq, Eq, Structural)]
pub enum SidebarSlot {
    /// The header of configured folder `group`.
    Folder { group: usize, has_children: bool },
    /// Catalog entry `i`.
    Catalog(usize),
    /// Standalone session `i`, which no saved profile owns.
    Standalone(usize),
    /// Runtime row `i`, which no catalog entry claimed.
    Runtime(usize),
}

/// What the sidebar's order depends on.
pub struct SidebarInputs {
    /// The configured folders, in order.
    pub groups: Vec<String>,
    /// Whether each folder is expanded.
    pub expanded: Vec<bool>,
    /// The folder of each catalog entry, in catalog order.
    pub catalog_groups: Vec<Option<String>>,
    /// The endpoint each catalog entry shows; none while it is pending.
    pub catalog_endpoints: Vec<Option<EndpointKey>>,
    /// Whether a saved profile owns each standalone session.
    pub standalone_saved: Vec<bool>,
    /// The endpoint each standalone session shows.
    pub standalone_endpoints: Vec<Option<EndpointKey>>,
    /// The runtime rows in tree order.
    pub runtime: Vec<RuntimeRowClaimIdentity>,
    /// The tree depth of each runtime row.
    pub runtime_depths: Vec<usize>,
    /// Whether a catalog entry claimed each runtime row.
    pub consumed: Vec<bool>,
}

impl SidebarInputs {
    /// The per-entry vectors match the things they describe.
    pub open spec fn valid(&self) -> bool {
        &&& self.expanded@.len() == self.groups@.len()
        &&& self.catalog_endpoints@.len() == self.catalog_groups@.len()
        &&& self.standalone_endpoints@.len() == self.standalone_saved@.len()
        &&& self.runtime_depths@.len() == self.runtime@.len()
        &&& self.consumed@.len() == self.runtime@.len()
    }
}

/// An optional string as an optional character sequence.
pub open spec fn opt_view(o: Option<String>) -> Option<Seq<char>> {
    match o {
        Some(s) => Some(s@),
        None => None,
    }
}

/// The folders of the catalog entries.
pub open spec fn group_views(v: Seq<Option<String>>) -> Seq<Option<Seq<char>>> {
    v.map_values(|o: Option<String>| opt_view(o))
}

/// The catalog entries in folder `g`, in catalog order.
pub open spec fn group_members(groups: Seq<Option<Seq<char>>>, g: Option<Seq<char>>) -> Seq<SidebarSlot>
    decreases groups.len(),
{
    if groups.len() == 0 {
        Seq::empty()
    } else {
        let rest = group_members(groups.drop_last(), g);
        if groups.last() == g {
            rest.push(SidebarSlot::Catalog((groups.len() - 1) as usize))
        } else {
            rest
        }
    }
}

/// Folder `k` is the first configured folder with its name.
pub open spec fn first_occurrence(names: Seq<Seq<char>>, k: int) -> bool {
    forall|j: int| 0 <= j < k ==> names[j] != names[k]
}

/// The rows of the first `n` configured folders: each header, then its
/// entries when it is expanded. A folder name configured twice holds its
/// entries at its first place only.
pub open spec fn folder_rows(
    names: Seq<Seq<char>>,
    expanded: Seq<bool>,
    groups: Seq<Option<Seq<char>>>,
    n: nat,
) -> Seq<SidebarSlot>
    decreases n,
{
    if n == 0 {
        Seq::empty()
    } else {
        let k = n - 1;
        let members = if first_occurrence(names, k) {
            group_members(groups, Some(names[k]))
        } else {
            Seq::empty()
        };
        folder_rows(names, expanded, groups, (n - 1) as nat) + seq![
            SidebarSlot::Folder { group: k as usize, has_children: members.len() > 0 },
        ] + if expanded[k] {
            members
        } else {
            Seq::empty()
        }
    }
}

/// The standalone sessions that no saved profile owns, in order.
pub open spec fn adhoc_rows(saved: Seq<bool>) -> Seq<SidebarSlot>
    decreases saved.len(),
{
    if saved.len() == 0 {
        Seq::empty()
    } else {
        let rest = adhoc_rows(saved.drop_last());
        if !saved.last() {
            rest.push(SidebarSlot::Standalone((saved.len() - 1) as usize))
        } else {
            rest
        }
    }
}

/// The endpoint a row shows, if any.
pub open spec fn slot_endpoint(s: SidebarSlot, catalog: Seq<Option<EndpointKey>>, standalone: Seq<Option<EndpointKey>>) -> Option<
    EndpointKey,
> {
    match s {
        SidebarSlot::Catalog(i) => catalog[i as int],
        SidebarSlot::Standalone(i) => standalone[i as int],
        _ => None,
    }
}

/// The endpoints with a host that the rows show, in order.
pub open spec fn shown_endpoints(
    slots: Seq<SidebarSlot>,
    catalog: Seq<Option<EndpointKey>>,
    standalone: Seq<Option<EndpointKey>>,
) -> Seq<EndpointKey>
    decreases slots.len(),
{
    if slots.len() == 0 {
        Seq::empty()
    } else {
        let rest = shown_endpoints(slots.drop_last(), catalog, standalone);
        match slot_endpoint(slots.last(), catalog, standalone) {
            Some(e) => if e.host@.len() > 0 {
                rest.push(e)
            } else {
                rest
            },
            None => rest,
        }
    }
}

/// A top-level ad-hoc runtime row repeats an endpoint that is already shown.
pub open spec fn repeats_shown_endpoint(r: RuntimeRowView, depth: usize, shown: Seq<EndpointKey>) -> bool {
    &&& depth == 0
    &&& r.saved_connection_id is None
    &&& r.host.len() > 0
    &&& exists|k: int| 0 <= k < shown.len() && #[trigger] endpoint_is(shown[k], r.host, r.port, r.username)
}

/// The first `n` runtime rows that stay: unclaimed, and not repeating a shown endpoint.
pub open spec fn runtime_tail(
    rows: Seq<RuntimeRowView>,
    depths: Seq<usize>,
    consumed: Seq<bool>,
    shown: Seq<EndpointKey>,
    n: nat,
) -> Seq<SidebarSlot>
    decreases n,
{
    if n == 0 {
        Seq::empty()
    } else {
        let i = n - 1;
        let rest = runtime_tail(rows, depths, consumed, shown, (n - 1) as nat);
        if !consumed[i] && !repeats_shown_endpoint(rows[i], depths[i], shown) {
            rest.push(SidebarSlot::Runtime(i as usize))
        } else {
            rest
        }
    }
}

/// The rows before the runtime tail.
pub open spec fn head_rows(inputs: SidebarInputs) -> Seq<SidebarSlot> {
    let groups = group_views(inputs.catalog_groups@);
    folder_rows(
        inputs.groups@.map_values(|s: String| s@),
        inputs.expanded@,
        groups,
        inputs.groups@.len(),
    ) + group_members(groups, None) + adhoc_rows(inputs.standalone_saved@)
}

/// The sidebar's rows, in order.
pub open spec fn sidebar_slots(inputs: SidebarInputs) -> Seq<SidebarSlot> {
    let head = head_rows(inputs);
    let shown = shown_endpoints(head, inputs.catalog_endpoints@, inputs.standalone_endpoints@);
    head + runtime_tail(
        row_views(inputs.runtime@),
        inputs.runtime_depths@,
        inputs.consumed@,
        shown,
        inputs.runtime@.len(),
    )
}

/// Whether an optional folder is `g`.
fn group_is(o: &Option<String>, g: &Option<String>) -> (r: bool)
    ensures
        r == (opt_view(*o) == opt_view(*g)),
{
    match (o, g) {
        (Some(a), Some(b)) => str_eq(a.as_str(), b.as_str()),
        (None, None) => true,
        _ => false,
    }
}

/// The catalog entries in folder `g` (see `group_members`).
fn members_of(groups: &[Option<String>], g: &Option<String>) -> (r: Vec<SidebarSlot>)
    ensures
        r@ == group_members(group_views(groups@), opt_view(*g)),
{
    let ghost gv = group_views(groups@);
    let mut r: Vec<SidebarSlot> = Vec::new();
    let mut i: usize = 0;
    assert(gv.take(0) =~= Seq::<Option<Seq<char>>>::empty());
    while i < groups.len()
        invariant
            i <= groups@.len(),
            gv == group_views(groups@),
            r@ == group_members(gv.take(i as int), opt_view(*g)),
        decreases groups.len() - i,
    {
        let ghost t = gv.take(i as int + 1);
        assert(t.drop_last() =~= gv.take(i as int));
        assert(t.last() == opt_view(groups@[i as int]));
        assert(t.len() == i + 1);
        if group_is(&groups[i], g) {
            r.push(SidebarSlot::Catalog(i));
        }
        i += 1;
    }
    assert(gv.take(groups@.len() as int) =~= gv);
    r
}

/// Whether folder `k` is the first configured folder with its name.
fn is_first_occurrence(names: &[String], k: usize) -> (r: bool)
    requires
        k < names@.len(),
    ensures
        r == first_occurrence(names@.map_values(|s: String| s@), k as int),
{
    let ghost nv = names@.map_values(|s: String| s@);
    let mut j: usize = 0;
    while j < k
        invariant
            j <= k < names@.len(),
            nv == names@.map_values(|s: String| s@),
            forall|m: int| 0 <= m < j ==> nv[m] != nv[k as int],
        decreases k - j,
    {
        if str_eq(names[j].as_str(), names[k].as_str()) {
            assert(nv[j as int] == nv[k as int]);
            return false;
        }
        j += 1;
    }
    true
}

/// A copy of an endpoint.
fn copy_endpoint(e: &EndpointKey) -> (r: EndpointKey)
    ensures
        r == *e,
{
    EndpointKey { host: e.host.clone(), port: e.port, username: e.username.clone() }
}

/// Appends a shown endpoint that has a host.
fn push_endpoint(shown: &mut Vec<EndpointKey>, e: &Option<EndpointKey>)
    ensures
        final(shown)@ == match *e {
            Some(k) => if k.host@.len() > 0 {
                old(shown)@.push(k)
            } else {
                old(shown)@
            },
            None => old(shown)@,
        },
{
    if let Some(k) = e {
        if !k.host.as_str().is_empty() {
            shown.push(copy_endpoint(k));
        }
    }
}

/// The members of a folder are catalog entries.
proof fn lemma_group_members_bounds(groups: Seq<Option<Seq<char>>>, g: Option<Seq<char>>)
    ensures
        forall|q: int| 0 <= q < group_members(groups, g).len() ==> ((#[trigger] group_members(groups, g)[q]) matches SidebarSlot::Catalog(i) && i < groups.len()),
    decreases groups.len(),
{
    if groups.len() > 0 {
        lemma_group_members_bounds(groups.drop_last(), g);
    }
}

/// Ad-hoc rows are standalone sessions.
proof fn lemma_adhoc_bounds(saved: Seq<bool>)
    ensures
        forall|q: int| 0 <= q < adhoc_rows(saved).len() ==> ((#[trigger] adhoc_rows(saved)[q]) matches SidebarSlot::Standalone(i) && i < saved.len()),
    decreases saved.len(),
{
    if saved.len() > 0 {
        lemma_adhoc_bounds(saved.drop_last());
    }
}

/// Folder rows are headers and catalog entries.
proof fn lemma_folder_rows_bounds(names: Seq<Seq<char>>, expanded: Seq<bool>, groups: Seq<Option<Seq<char>>>, n: nat)
    ensures
        forall|q: int| 0 <= q < folder_rows(names, expanded, groups, n).len() ==> match #[trigger] folder_rows(names, expanded, groups, n)[q] {
            SidebarSlot::Catalog(i) => i < groups.len(),
            SidebarSlot::Standalone(_) => false,
            SidebarSlot::Runtime(_) => false,
            _ => true,
        },
    decreases n,
{
    if n > 0 {
        let k = n - 1;
        lemma_folder_rows_bounds(names, expanded, groups, (n - 1) as nat);
        lemma_group_members_bounds(groups, Some(names[k]));
    }
}

/// The sidebar's rows, in order (see `sidebar_slots`).
pub fn sidebar_rows(inputs: &SidebarInputs) -> (r: Vec<SidebarSlot>)
    requires
        inputs.valid(),
    ensures
        r@ == sidebar_slots(*inputs),
{
    let ghost names = inputs.groups@.map_values(|s: String| s@);
    let ghost gv = group_views(inputs.catalog_groups@);
    let mut rows: Vec<SidebarSlot> = Vec::new();
    let mut k: usize = 0;
    while k < inputs.groups.len()
        invariant
            inputs.valid(),
            k <= inputs.groups@.len(),
            names == inputs.groups@.map_values(|s: String| s@),
            gv == group_views(inputs.catalog_groups@),
            rows@ == folder_rows(names, inputs.expanded@, gv, k as nat),
        decreases inputs.groups.len() - k,
    {
        let members = if is_first_occurrence(inputs.groups.as_slice(), k) {
            members_of(inputs.catalog_groups.as_slice(), &Some(inputs.groups[k].clone()))
        } else {
            Vec::new()
        };
        assert(names[k as int] == inputs.groups@[k as int]@);
        rows.push(SidebarSlot::Folder { group: k, has_children: members.len() > 0 });
        if inputs.expanded[k] {
            let mut m: usize = 0;
            let ghost base = rows@;
            while m < members.len()
                invariant
                    m <= members@.len(),
                    rows@ == base + members@.take(m as int),
                decreases members.len() - m,
            {
                rows.push(members[m]);
                m += 1;
                assert(rows@ =~= base + members@.take(m as int));
            }
            assert(members@.take(members@.len() as int) =~= members@);
        } else {
            assert(rows@ =~= rows@ + Seq::<SidebarSlot>::empty());
        }
        k += 1;
    }
    let ungrouped = members_of(inputs.catalog_groups.as_slice(), &None);
    let ghost before_ungrouped = rows@;
    let mut m: usize = 0;
    while m < ungrouped.len()
        invariant
            m <= ungrouped@.len(),
            rows@ == before_ungrouped + ungrouped@.take(m as int),
        decreases ungrouped.len() - m,
    {
        rows.push(ungrouped[m]);
        m += 1;
        assert(rows@ =~= before_ungrouped + ungrouped@.take(m as int));
    }
    assert(ungrouped@.take(ungrouped@.len() as int) =~= ungrouped@);
    let ghost before_adhoc = rows@;
    let mut s: usize = 0;
    let ghost saved = inputs.standalone_saved@;
    assert(saved.take(0) =~= Seq::<bool>::empty());
    assert(rows@ =~= before_adhoc + adhoc_rows(saved.take(0)));
    while s < inputs.standalone_saved.len()
        invariant
            s <= saved.len(),
            saved == inputs.standalone_saved@,
            rows@ == before_adhoc + adhoc_rows(saved.take(s as int)),
        decreases saved.len() - s,
    {
        let ghost t = saved.take(s as int + 1);
        assert(t.drop_last() =~= saved.take(s as int));
        assert(t.last() == saved[s as int]);
        if !inputs.standalone_saved[s] {
            rows.push(SidebarSlot::Standalone(s));
        }
        s += 1;
        assert(rows@ =~= before_adhoc + adhoc_rows(saved.take(s as int)));
    }
    assert(saved.take(saved.len() as int) =~= saved);
    let ghost head = rows@;
    assert(head == head_rows(*inputs));
    proof {
        lemma_folder_rows_bounds(names, inputs.expanded@, gv, inputs.groups@.len());
        lemma_group_members_bounds(gv, None);
        lemma_adhoc_bounds(saved);
        let f = folder_rows(names, inputs.expanded@, gv, inputs.groups@.len());
        let u = group_members(gv, None);
        let a = adhoc_rows(saved);
        assert(head == f + u + a);
        assert forall|q: int| 0 <= q < head.len() implies match #[trigger] head[q] {
            SidebarSlot::Catalog(i) => i < inputs.catalog_endpoints@.len(),
            SidebarSlot::Standalone(i) => i < inputs.standalone_endpoints@.len(),
            _ => true,
        } by {
            if q < f.len() {
                assert(head[q] == f[q]);
            } else if q < f.len() + u.len() {
                assert(head[q] == u[q - f.len()]);
            } else {
                assert(head[q] == a[q - f.len() - u.len()]);
            }
        }
    }
    let ghost ce = inputs.catalog_endpoints@;
    let ghost se = inputs.standalone_endpoints@;
    let mut shown: Vec<EndpointKey> = Vec::new();
    let mut h: usize = 0;
    assert(head.take(0) =~= Seq::<SidebarSlot>::empty());
    while h < rows.len()
        invariant
            inputs.valid(),
            h <= rows@.len(),
            rows@ == head,
            head == head_rows(*inputs),
            ce == inputs.catalog_endpoints@,
            se == inputs.standalone_endpoints@,
            forall|q: int| 0 <= q < head.len() ==> match #[trigger] head[q] {
                SidebarSlot::Catalog(i) => i < ce.len(),
                SidebarSlot::Standalone(i) => i < se.len(),
                _ => true,
            },
            shown@ == shown_endpoints(head.take(h as int), ce, se),
        decreases rows.len() - h,
    {
        let ghost t = head.take(h as int + 1);
        assert(t.drop_last() =~= head.take(h as int));
        assert(t.last() == head[h as int]);
        match rows[h] {
            SidebarSlot::Catalog(i) => push_endpoint(&mut shown, &inputs.catalog_endpoints[i]),
            SidebarSlot::Standalone(i) => push_endpoint(&mut shown, &inputs.standalone_endpoints[i]),
            _ => {},
        }
        h += 1;
    }
    assert(head.take(head.len() as int) =~= head);
    let ghost rv = row_views(inputs.runtime@);
    let ghost shown_v = shown@;
    let mut i: usize = 0;
    while i < inputs.runtime.len()
        invariant
            inputs.valid(),
            i <= inputs.runtime@.len(),
            rv == row_views(inputs.runtime@),
            shown_v == shown@,
            rows@ == head + runtime_tail(rv, inputs.runtime_depths@, inputs.consumed@, shown_v, i as nat),
        decreases inputs.runtime.len() - i,
    {
        let row = &inputs.runtime[i];
        assert(rv[i as int] == row@);
        let saved_id: Option<&str> = match &row.saved_connection_id {
            Some(id) => Some(id.as_str()),
            None => None,
        };
        let ghost prev = runtime_tail(rv, inputs.runtime_depths@, inputs.consumed@, shown_v, i as nat);
        let ghost keep = !inputs.consumed@[i as int] && !repeats_shown_endpoint(rv[i as int], inputs.runtime_depths@[i as int], shown_v);
        assert(runtime_tail(rv, inputs.runtime_depths@, inputs.consumed@, shown_v, (i + 1) as nat) == if keep {
            prev.push(SidebarSlot::Runtime(i))
        } else {
            prev
        });
        let sv = shown.as_slice();
        assert(sv@ == shown_v);
        assert(rv[i as int].host == row.host@ && rv[i as int].port == row.port && rv[i as int].username
            == row.username@);
        let duplicate = leftover_runtime_row_is_duplicate(
            inputs.runtime_depths[i],
            saved_id,
            row.host.as_str(),
            row.port,
            row.username.as_str(),
            sv,
        );
        assert(saved_id is None <==> rv[i as int].saved_connection_id is None);
        assert(duplicate == repeats_shown_endpoint(rv[i as int], inputs.runtime_depths@[i as int], shown_v));
        if !inputs.consumed[i] && !duplicate {
            rows.push(SidebarSlot::Runtime(i));
            assert(rows@ =~= head + prev.push(SidebarSlot::Runtime(i)));
        }
        i += 1;
    }
    rows
}


/// Members of a folder are entries of that folder.
proof fn lemma_group_members_are_in_group(groups: Seq<Option<Seq<char>>>, g: Option<Seq<char>>, q: int)
    requires
        groups.len() <= usize::MAX,
        0 <= q < group_members(groups, g).len(),
    ensures
        group_members(groups, g)[q] matches SidebarSlot::Catalog(i) && i < groups.len() && groups[i as int] == g,
    decreases groups.len(),
{
    let rest = group_members(groups.drop_last(), g);
    if q < rest.len() {
        lemma_group_members_are_in_group(groups.drop_last(), g, q);
    }
}

/// A catalog entry among the folder rows belongs to an expanded folder.
proof fn lemma_folder_entries_are_expanded(
    names: Seq<Seq<char>>,
    expanded: Seq<bool>,
    groups: Seq<Option<Seq<char>>>,
    n: nat,
    q: int,
)
    requires
        n <= names.len(),
        groups.len() <= usize::MAX,
        0 <= q < folder_rows(names, expanded, groups, n).len(),
    ensures
        folder_rows(names, expanded, groups, n)[q] matches SidebarSlot::Catalog(i) ==> (exists|k: int|
            0 <= k < n && expanded[k] && #[trigger] names[k] == names[k] && groups[i as int] == Some(names[k])),
    decreases n,
{
    if n > 0 {
        let k = n - 1;
        let prev = folder_rows(names, expanded, groups, (n - 1) as nat);
        let members = if first_occurrence(names, k) {
            group_members(groups, Some(names[k]))
        } else {
            Seq::empty()
        };
        let header = seq![SidebarSlot::Folder { group: k as usize, has_children: members.len() > 0 }];
        let tail: Seq<SidebarSlot> = if expanded[k] {
            members
        } else {
            Seq::empty()
        };
        let all = folder_rows(names, expanded, groups, n);
        assert(all == prev + header + tail);
        if q < prev.len() {
            assert(all[q] == prev[q]);
            lemma_folder_entries_are_expanded(names, expanded, groups, (n - 1) as nat, q);
        } else if q > prev.len() {
            let m = q - prev.len() - 1;
            assert(all[q] == tail[m]);
            assert(expanded[k]);
            assert(first_occurrence(names, k));
            lemma_group_members_are_in_group(groups, Some(names[k]), m);
            assert(names[k] == names[k]);
        }
    }
}

/// Rows of the runtime tail are unclaimed runtime rows.
proof fn lemma_runtime_tail_unclaimed(
    rows: Seq<RuntimeRowView>,
    depths: Seq<usize>,
    consumed: Seq<bool>,
    shown: Seq<EndpointKey>,
    n: nat,
    q: int,
)
    requires
        n <= usize::MAX,
        0 <= q < runtime_tail(rows, depths, consumed, shown, n).len(),
    ensures
        runtime_tail(rows, depths, consumed, shown, n)[q] matches SidebarSlot::Runtime(i) && i < n && !consumed[i as int],
    decreases n,
{
    if n > 0 {
        let prev = runtime_tail(rows, depths, consumed, shown, (n - 1) as nat);
        if q < prev.len() {
            lemma_runtime_tail_unclaimed(rows, depths, consumed, shown, (n - 1) as nat, q);
        }
    }
}

/// The sidebar shows a catalog entry only when it is ungrouped or its
/// folder is configured and expanded, so a collapsed folder hides its
/// entries; and a runtime row that a catalog entry claimed never shows on
/// its own in the runtime tail.
pub proof fn lemma_sidebar_rows_respect_folders_and_claims(inputs: SidebarInputs, q: int)
    requires
        inputs.valid(),
        inputs.catalog_groups@.len() <= usize::MAX,
        inputs.runtime@.len() <= usize::MAX,
        0 <= q < sidebar_slots(inputs).len(),
    ensures
        sidebar_slots(inputs)[q] matches SidebarSlot::Catalog(i) ==> i < inputs.catalog_groups@.len() && (
        inputs.catalog_groups@[i as int] is None || exists|k: int|
            0 <= k < inputs.groups@.len() && inputs.expanded@[k] && #[trigger] opt_view(
                inputs.catalog_groups@[i as int],
            ) == Some(inputs.groups@[k]@)),
        sidebar_slots(inputs)[q] matches SidebarSlot::Runtime(i) ==> i < inputs.runtime@.len()
            && !inputs.consumed@[i as int],
{
    let names = inputs.groups@.map_values(|s: String| s@);
    let gv = group_views(inputs.catalog_groups@);
    let f = folder_rows(names, inputs.expanded@, gv, inputs.groups@.len());
    let u = group_members(gv, None);
    let a = adhoc_rows(inputs.standalone_saved@);
    let head = head_rows(inputs);
    let shown = shown_endpoints(head, inputs.catalog_endpoints@, inputs.standalone_endpoints@);
    let t = runtime_tail(row_views(inputs.runtime@), inputs.runtime_depths@, inputs.consumed@, shown, inputs.runtime@.len());
    let all = sidebar_slots(inputs);
    assert(head == f + u + a);
    assert(all == head + t);
    lemma_adhoc_bounds(inputs.standalone_saved@);
    if q < f.len() {
        assert(all[q] == f[q]);
        lemma_folder_rows_bounds(names, inputs.expanded@, gv, inputs.groups@.len());
        lemma_folder_entries_are_expanded(names, inputs.expanded@, gv, inputs.groups@.len(), q);
        if let SidebarSlot::Catalog(i) = f[q] {
            let k = choose|k: int|
                0 <= k < inputs.groups@.len() && inputs.expanded@[k] && #[trigger] names[k] == names[k] && gv[i as int] == Some(names[k]);
            assert(gv[i as int] == opt_view(inputs.catalog_groups@[i as int]));
            assert(names[k] == inputs.groups@[k]@);
        }
    } else if q < f.len() + u.len() {
        assert(all[q] == u[q - f.len()]);
        lemma_group_members_are_in_group(gv, None, q - f.len());
        if let SidebarSlot::Catalog(i) = u[q - f.len()] {
            assert(gv[i as int] == opt_view(inputs.catalog_groups@[i as int]));
        }
    } else if q < head.len() {
        assert(all[q] == a[q - f.len() - u.len()]);
    } else {
        assert(all[q] == t[q - head.len()]);
        lemma_runtime_tail_unclaimed(
            row_views(inputs.runtime@),
            inputs.runtime_depths@,
            inputs.consumed@,
            shown,
            inputs.runtime@.len(),
            q - head.len(),
        );
    }
}

}
