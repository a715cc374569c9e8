//! The routing information bases: Adj-RIB-In, Loc-RIB and Adj-RIB-Out share
//! one type, an ordered list of routes in which no two have the same next
//! hop and destination.

use crate::bgp::AutonomousSystemNumber;
use crate::path_attribute::{
    clone_attributes, models, AsPath, AsPathModel, Origin, PathAttribute, PathAttributeModel,
};
use crate::routing::{IpPrefix, Ipv4Addr, KernelRoute};
use crate::update::BgpUpdateMessage;
use vstd::prelude::*;

verus! {

/// The protocol tag under which routes are put into the host's table.
pub const KERNEL_PROTOCOL: u8 = 3;

/// Whether a route has entered its base since the last pass over that base.
#[derive(Clone, Copy, Debug, PartialEq, Eq, Structural)]
pub enum RoutingInformationStatus {
    Withdrawn,
    Updated,
    UnChanged,
}

/// The install status of a route.
#[derive(Clone, Copy, Debug, PartialEq, Eq, Structural)]
pub enum UpdateStatus {
    /// The route still has to be put into the host's table.
    ShouldUpdate,
    /// The route has been put into the host's table.
    Updated,
}

/// One route of a base.
#[derive(Debug)]
pub struct RoutingInformationEntry {
    /// The next hop towards the destination.
    pub nexthop: Ipv4Addr,
    /// The destination prefix.
    pub destination_address: IpPrefix,
    /// Whether the route is new to its base.
    pub status: RoutingInformationStatus,
    /// The path attributes under which the route was learned, in order.
    pub path_attributes: Vec<PathAttribute>,
    /// The install status: whether the route still has to be put into the
    /// host's table.
    pub update_status: UpdateStatus,
}

/// What a route holds.
pub struct EntryModel {
    pub nexthop: Ipv4Addr,
    pub destination_address: IpPrefix,
    pub status: RoutingInformationStatus,
    pub path_attributes: Seq<PathAttributeModel>,
    pub update_status: UpdateStatus,
}

impl View for RoutingInformationEntry {
    type V = EntryModel;

    open spec fn view(&self) -> EntryModel {
        EntryModel {
            nexthop: self.nexthop,
            destination_address: self.destination_address,
            status: self.status,
            path_attributes: models(self.path_attributes@),
            update_status: self.update_status,
        }
    }
}

/// What a list of routes holds.
pub open spec fn entry_models(entries: Seq<RoutingInformationEntry>) -> Seq<EntryModel> {
    Seq::new(entries.len(), |i: int| entries[i]@)
}

/// Two routes are the same route when they have the same next hop and the
/// same destination; the attributes and the two status fields do not count.
pub open spec fn same_route(a: EntryModel, b: EntryModel) -> bool {
    a.nexthop == b.nexthop && a.destination_address == b.destination_address
}

/// Whether the base holds the route of `entry`.
pub open spec fn has_route(rib: Seq<EntryModel>, entry: EntryModel) -> bool {
    exists|i: int| 0 <= i < rib.len() && same_route(#[trigger] rib[i], entry)
}

/// No two routes of the base are the same route.
pub open spec fn unique(rib: Seq<EntryModel>) -> bool {
    forall|i: int, j: int| 0 <= i < j < rib.len() ==> !same_route(#[trigger] rib[i], #[trigger] rib[j])
}

/// The base after `entry` was offered to it: unchanged where it holds the
/// route already, with `entry` at its end where it does not.
pub open spec fn inserted(rib: Seq<EntryModel>, entry: EntryModel) -> Seq<EntryModel> {
    if has_route(rib, entry) {
        rib
    } else {
        rib.push(entry)
    }
}

/// The base after each of `entries` was offered to it, in order.
pub open spec fn inserted_all(rib: Seq<EntryModel>, entries: Seq<EntryModel>) -> Seq<EntryModel>
    decreases entries.len(),
{
    if entries.len() == 0 {
        rib
    } else {
        inserted_all(inserted(rib, entries.first()), entries.drop_first())
    }
}

/// The route with its status set to unchanged.
pub open spec fn settled(entry: EntryModel) -> EntryModel {
    EntryModel { status: RoutingInformationStatus::UnChanged, ..entry }
}

/// The route marked as put into the host's table.
pub open spec fn installed(entry: EntryModel) -> EntryModel {
    EntryModel { update_status: UpdateStatus::Updated, ..entry }
}

/// The base with every route set to unchanged.
pub open spec fn marked_unchanged(rib: Seq<EntryModel>) -> Seq<EntryModel> {
    Seq::new(rib.len(), |i: int| settled(rib[i]))
}

/// The base with every route marked as put into the host's table.
pub open spec fn marked_installed(rib: Seq<EntryModel>) -> Seq<EntryModel> {
    Seq::new(rib.len(), |i: int| installed(rib[i]))
}

/// Whether a route is new: its status is not unchanged.
pub open spec fn is_new(entry: EntryModel) -> bool {
    entry.status != RoutingInformationStatus::UnChanged
}

/// Whether some route of the base is new.
pub open spec fn has_new(rib: Seq<EntryModel>) -> bool {
    exists|i: int| 0 <= i < rib.len() && is_new(#[trigger] rib[i])
}

/// Whether a route is to be put into the host's table: it is updated and
/// not yet installed.
pub open spec fn awaits_install(entry: EntryModel) -> bool {
    entry.status == RoutingInformationStatus::Updated && entry.update_status
        == UpdateStatus::ShouldUpdate
}

/// The route as it enters a base: with its status set to updated.
pub open spec fn entered(entry: EntryModel) -> EntryModel {
    EntryModel { status: RoutingInformationStatus::Updated, ..entry }
}

/// Every route of the base as it enters another base.
pub open spec fn all_entered(rib: Seq<EntryModel>) -> Seq<EntryModel> {
    Seq::new(rib.len(), |i: int| entered(rib[i]))
}

/// One pass that brings the routes of `from` into `to`: every route of `to`
/// is set to unchanged, then each route of `from` is offered to it as an
/// updated route. So after the pass, the new routes of `to` are those that
/// entered it in this pass.
pub open spec fn propagated(from: Seq<EntryModel>, to: Seq<EntryModel>) -> Seq<EntryModel> {
    inserted_all(marked_unchanged(to), all_entered(from))
}

/// Offering a route keeps the routes of a base distinct.
pub proof fn lemma_inserted_unique(rib: Seq<EntryModel>, entry: EntryModel)
    requires
        unique(rib),
    ensures
        unique(inserted(rib, entry)),
{
    if !has_route(rib, entry) {
        let longer = rib.push(entry);
        assert forall|i: int, j: int| 0 <= i < j < longer.len() implies !same_route(
            #[trigger] longer[i],
            #[trigger] longer[j],
        ) by {
            if j == rib.len() {
                assert(longer[i] == rib[i]);
                assert(!same_route(rib[i], entry));
            } else {
                assert(longer[i] == rib[i]);
                assert(longer[j] == rib[j]);
            }
        }
    }
}

/// Offering any sequence of routes keeps the routes of a base distinct.
pub proof fn lemma_inserted_all_unique(rib: Seq<EntryModel>, entries: Seq<EntryModel>)
    requires
        unique(rib),
    ensures
        unique(inserted_all(rib, entries)),
    decreases entries.len(),
{
    if entries.len() > 0 {
        lemma_inserted_unique(rib, entries.first());
        lemma_inserted_all_unique(inserted(rib, entries.first()), entries.drop_first());
    }
}

/// Whatever sequence of routes is offered to an empty base, no two routes
/// of the result have the same next hop and destination.
pub proof fn lemma_insertions_never_duplicate(entries: Seq<EntryModel>)
    ensures
        unique(inserted_all(Seq::empty(), entries)),
{
    lemma_inserted_all_unique(Seq::empty(), entries);
}

/// Offering routes removes no route of the base, and the base then holds
/// the route of every one that was offered.
pub proof fn lemma_inserted_all_holds(rib: Seq<EntryModel>, entries: Seq<EntryModel>)
    ensures
        forall|e: EntryModel| has_route(rib, e) ==> has_route(inserted_all(rib, entries), e),
        forall|k: int|
            0 <= k < entries.len() ==> has_route(inserted_all(rib, entries), #[trigger] entries[k]),
    decreases entries.len(),
{
    if entries.len() > 0 {
        let first = entries.first();
        let rest = entries.drop_first();
        let next = inserted(rib, first);
        lemma_inserted_all_holds(next, rest);
        assert forall|e: EntryModel| has_route(rib, e) implies has_route(
            inserted_all(rib, entries),
            e,
        ) by {
            let i = choose|i: int| 0 <= i < rib.len() && same_route(#[trigger] rib[i], e);
            assert(next[i] == rib[i]);
            assert(has_route(next, e));
        }
        assert(has_route(next, first)) by {
            if has_route(rib, first) {
            } else {
                assert(same_route(next[rib.len() as int], first));
            }
        }
        assert forall|k: int| 0 <= k < entries.len() implies has_route(
            inserted_all(rib, entries),
            #[trigger] entries[k],
        ) by {
            if k > 0 {
                assert(entries[k] == rest[k - 1]);
            }
        }
    }
}

/// Offering routes that the base holds already changes nothing.
pub proof fn lemma_inserted_all_known(rib: Seq<EntryModel>, entries: Seq<EntryModel>)
    requires
        forall|k: int| 0 <= k < entries.len() ==> has_route(rib, #[trigger] entries[k]),
    ensures
        inserted_all(rib, entries) == rib,
    decreases entries.len(),
{
    if entries.len() > 0 {
        let rest = entries.drop_first();
        assert(has_route(rib, entries[0]));
        assert forall|k: int| 0 <= k < rest.len() implies has_route(rib, #[trigger] rest[k]) by {
            assert(rest[k] == entries[k + 1]);
        }
        lemma_inserted_all_known(rib, rest);
    }
}

/// Setting every route to unchanged keeps which routes the base holds.
pub proof fn lemma_marked_unchanged_holds(rib: Seq<EntryModel>, entry: EntryModel)
    ensures
        has_route(marked_unchanged(rib), entry) == has_route(rib, entry),
        unique(rib) ==> unique(marked_unchanged(rib)),
        !has_new(marked_unchanged(rib)),
{
    let marked = marked_unchanged(rib);
    if has_route(rib, entry) {
        let i = choose|i: int| 0 <= i < rib.len() && same_route(#[trigger] rib[i], entry);
        assert(same_route(marked[i], entry));
    }
    if has_route(marked, entry) {
        let i = choose|i: int| 0 <= i < marked.len() && same_route(#[trigger] marked[i], entry);
        assert(same_route(rib[i], entry));
    }
    if unique(rib) {
        assert forall|i: int, j: int| 0 <= i < j < marked.len() implies !same_route(
            #[trigger] marked[i],
            #[trigger] marked[j],
        ) by {
            assert(!same_route(rib[i], rib[j]));
        }
    }
}

/// A second pass from the same source, with nothing changed in between,
/// adds no route and leaves every route unchanged: it only sets the status
/// of the routes that the first pass brought in.
pub proof fn lemma_propagation_idempotent(from: Seq<EntryModel>, to: Seq<EntryModel>)
    ensures
        propagated(from, propagated(from, to)) == marked_unchanged(propagated(from, to)),
        !has_new(propagated(from, propagated(from, to))),
        propagated(from, propagated(from, to)).len() == propagated(from, to).len(),
        forall|i: int|
            0 <= i < propagated(from, to).len() ==> same_route(
                #[trigger] propagated(from, propagated(from, to))[i],
                propagated(from, to)[i],
            ),
{
    let once = propagated(from, to);
    let marked = marked_unchanged(once);
    let offered = all_entered(from);
    lemma_inserted_all_holds(marked_unchanged(to), offered);
    assert forall|k: int| 0 <= k < offered.len() implies has_route(
        marked,
        #[trigger] offered[k],
    ) by {
        lemma_marked_unchanged_holds(once, offered[k]);
    }
    lemma_inserted_all_known(marked, offered);
    assert(has_new(marked) == false) by {
        if has_new(marked) {
            let i = choose|i: int| 0 <= i < marked.len() && is_new(#[trigger] marked[i]);
            assert(false);
        }
    }
}

/// Offering routes keeps the routes of the base where they are, and every
/// route behind them is one of those that were offered.
pub proof fn lemma_inserted_all_shape(rib: Seq<EntryModel>, entries: Seq<EntryModel>)
    ensures
        inserted_all(rib, entries).len() >= rib.len(),
        forall|i: int| 0 <= i < rib.len() ==> #[trigger] inserted_all(rib, entries)[i] == rib[i],
        forall|i: int|
            rib.len() <= i < inserted_all(rib, entries).len() ==> exists|k: int|
                0 <= k < entries.len() && #[trigger] inserted_all(rib, entries)[i]
                    == #[trigger] entries[k],
    decreases entries.len(),
{
    if entries.len() > 0 {
        let first = entries.first();
        let rest = entries.drop_first();
        let next = inserted(rib, first);
        let all = inserted_all(rib, entries);
        lemma_inserted_all_shape(next, rest);
        assert forall|i: int| 0 <= i < rib.len() implies #[trigger] all[i] == rib[i] by {
            assert(all[i] == next[i]);
        }
        assert forall|i: int| rib.len() <= i < all.len() implies exists|k: int|
            0 <= k < entries.len() && #[trigger] all[i] == #[trigger] entries[k] by {
            if i < next.len() {
                assert(all[i] == next[i]);
                assert(all[i] == entries[0]);
            } else {
                let k = choose|k: int| 0 <= k < rest.len() && all[i] == #[trigger] rest[k];
                assert(all[i] == entries[k + 1]);
            }
        }
    }
}

/// After a pass from `from` into `to`, the routes that `to` held stand
/// where they stood and are unchanged, every route behind them is an
/// updated route that came from `from`, and `to` holds the route of every
/// route of `from`.
pub proof fn lemma_propagated_shape(from: Seq<EntryModel>, to: Seq<EntryModel>)
    ensures
        propagated(from, to).len() >= to.len(),
        forall|i: int| 0 <= i < to.len() ==> #[trigger] propagated(from, to)[i] == settled(to[i]),
        forall|i: int|
            to.len() <= i < propagated(from, to).len() ==> exists|k: int|
                0 <= k < from.len() && #[trigger] propagated(from, to)[i] == entered(
                    #[trigger] from[k],
                ),
        forall|k: int| 0 <= k < from.len() ==> has_route(propagated(from, to), #[trigger] from[k]),
{
    let marked = marked_unchanged(to);
    let offered = all_entered(from);
    let all = propagated(from, to);
    lemma_inserted_all_shape(marked, offered);
    lemma_inserted_all_holds(marked, offered);
    assert forall|i: int| to.len() <= i < all.len() implies exists|k: int|
        0 <= k < from.len() && #[trigger] all[i] == entered(#[trigger] from[k]) by {
        let k = choose|k: int| 0 <= k < offered.len() && all[i] == #[trigger] offered[k];
        assert(all[i] == entered(from[k]));
    }
    assert forall|k: int| 0 <= k < from.len() implies has_route(all, #[trigger] from[k]) by {
        assert(has_route(all, offered[k]));
        let i = choose|i: int| 0 <= i < all.len() && same_route(#[trigger] all[i], offered[k]);
        assert(same_route(all[i], from[k]));
    }
}

/// Offering one more route at the end is offering it to what the others left.
pub proof fn lemma_inserted_all_push(
    rib: Seq<EntryModel>,
    entries: Seq<EntryModel>,
    last: EntryModel,
)
    ensures
        inserted_all(rib, entries.push(last)) == inserted(inserted_all(rib, entries), last),
    decreases entries.len(),
{
    let longer = entries.push(last);
    if entries.len() == 0 {
        assert(longer.drop_first() =~= Seq::<EntryModel>::empty());
        assert(inserted_all(rib, longer) == inserted_all(
            inserted(rib, longer.first()),
            longer.drop_first(),
        ));
    } else {
        assert(longer.drop_first() =~= entries.drop_first().push(last));
        lemma_inserted_all_push(inserted(rib, entries.first()), entries.drop_first(), last);
    }
}

/// The first AS_PATH among the attributes, if there is one.
pub open spec fn first_as_path(attributes: Seq<PathAttributeModel>) -> Option<AsPathModel>
    decreases attributes.len(),
{
    if attributes.len() == 0 {
        None
    } else {
        match attributes.first() {
            PathAttributeModel::AsPath(path) => Some(path),
            _ => first_as_path(attributes.drop_first()),
        }
    }
}

/// The address of the last NEXT_HOP among the attributes; 0.0.0.0 where
/// there is none.
pub open spec fn next_hop_of(attributes: Seq<PathAttributeModel>) -> Ipv4Addr
    decreases attributes.len(),
{
    if attributes.len() == 0 {
        Ipv4Addr { bits: 0 }
    } else {
        match attributes.last() {
            PathAttributeModel::NextHop(next_hop) => next_hop,
            _ => next_hop_of(attributes.drop_last()),
        }
    }
}

/// The attribute with `number` added at the end of its segment, where it is
/// an AS_PATH.
pub open spec fn with_as_number(attribute: PathAttributeModel, number: u16) -> PathAttributeModel {
    match attribute {
        PathAttributeModel::AsPath(AsPathModel::AsSet(numbers)) => PathAttributeModel::AsPath(
            AsPathModel::AsSet(numbers.push(number)),
        ),
        PathAttributeModel::AsPath(AsPathModel::AsSequence(numbers)) => PathAttributeModel::AsPath(
            AsPathModel::AsSequence(numbers.push(number)),
        ),
        _ => attribute,
    }
}

/// The attribute with its address set to `next_hop`, where it is a NEXT_HOP.
pub open spec fn with_next_hop(attribute: PathAttributeModel, next_hop: Ipv4Addr) -> PathAttributeModel {
    match attribute {
        PathAttributeModel::NextHop(_) => PathAttributeModel::NextHop(next_hop),
        _ => attribute,
    }
}

/// The attribute with its value set to `origin`, where it is an ORIGIN.
pub open spec fn with_origin(attribute: PathAttributeModel, origin: Origin) -> PathAttributeModel {
    match attribute {
        PathAttributeModel::Origin(_) => PathAttributeModel::Origin(origin),
        _ => attribute,
    }
}

/// The attributes with every ORIGIN among them set to `origin`.
pub open spec fn all_with_origin(attributes: Seq<PathAttributeModel>, origin: Origin) -> Seq<
    PathAttributeModel,
> {
    Seq::new(attributes.len(), |i: int| with_origin(attributes[i], origin))
}

/// The route that an UPDATE announces for `destination`: new, not yet
/// installed, with the next hop of the UPDATE and a copy of its attributes
/// in which the origin is EGP.
pub open spec fn learned_entry(
    attributes: Seq<PathAttributeModel>,
    destination: IpPrefix,
) -> EntryModel {
    EntryModel {
        nexthop: next_hop_of(attributes),
        destination_address: destination,
        status: RoutingInformationStatus::Updated,
        path_attributes: all_with_origin(attributes, Origin::Egp),
        update_status: UpdateStatus::ShouldUpdate,
    }
}

/// The routes that an UPDATE announces, one for each announced prefix.
pub open spec fn learned_entries(
    attributes: Seq<PathAttributeModel>,
    announced: Seq<IpPrefix>,
) -> Seq<EntryModel> {
    Seq::new(announced.len(), |i: int| learned_entry(attributes, announced[i]))
}

/// Whether a route of the host has a destination.
pub open spec fn has_destination(route: KernelRoute) -> bool {
    route.destination is Some
}

/// The route that stands for a route of the host that has a destination:
/// new, not yet installed, with the gateway as next hop (0.0.0.0 where the
/// host names none) and the given attributes.
pub open spec fn kernel_entry(
    route: KernelRoute,
    attributes: Seq<PathAttributeModel>,
) -> EntryModel {
    EntryModel {
        nexthop: match route.gateway {
            Some(gateway) => gateway,
            None => Ipv4Addr { bits: 0 },
        },
        destination_address: route.destination->0,
        status: RoutingInformationStatus::Updated,
        path_attributes: attributes,
        update_status: UpdateStatus::ShouldUpdate,
    }
}

/// The routes that stand for those routes of the host that have a
/// destination, in the order of the host.
pub open spec fn kernel_entries(
    routes: Seq<KernelRoute>,
    attributes: Seq<PathAttributeModel>,
) -> Seq<EntryModel> {
    routes.filter(|route: KernelRoute| has_destination(route)).map_values(
        |route: KernelRoute| kernel_entry(route, attributes),
    )
}

/// The new routes of a base, in its order.
pub open spec fn new_routes(rib: Seq<EntryModel>) -> Seq<EntryModel> {
    rib.filter(|entry: EntryModel| is_new(entry))
}

/// What the host is asked to add for a route: the protocol tag, the
/// destination and the gateway.
#[derive(Clone, Copy, Debug, PartialEq, Eq, Structural)]
pub struct KernelRouteRequest {
    pub protocol: u8,
    pub destination: IpPrefix,
    pub gateway: Ipv4Addr,
}

/// The request that puts a route into the host's table.
pub open spec fn install_request(entry: EntryModel) -> KernelRouteRequest {
    KernelRouteRequest {
        protocol: 3,
        destination: entry.destination_address,
        gateway: entry.nexthop,
    }
}

impl Clone for RoutingInformationEntry {
    fn clone(&self) -> (copy: Self)
        ensures
            copy@ == self@,
    {
        RoutingInformationEntry {
            nexthop: self.nexthop,
            destination_address: self.destination_address,
            status: self.status,
            path_attributes: clone_attributes(&self.path_attributes),
            update_status: self.update_status,
        }
    }
}

impl PartialEq for RoutingInformationEntry {
    /// Two routes are equal when they are the same route: neither the
    /// attributes nor the two status fields count.
    fn eq(&self, other: &RoutingInformationEntry) -> (equal: bool) {
        self.nexthop == other.nexthop && self.destination_address == other.destination_address
    }
}

impl vstd::std_specs::cmp::PartialEqSpecImpl for RoutingInformationEntry {
    open spec fn obeys_eq_spec() -> bool {
        true
    }

    open spec fn eq_spec(&self, other: &RoutingInformationEntry) -> bool {
        same_route(self@, other@)
    }
}

impl RoutingInformationEntry {
    /// A route that is not yet put into the host's table.
    pub fn new(
        nexthop: Ipv4Addr,
        destination_address: IpPrefix,
        status: RoutingInformationStatus,
        path_attributes: Vec<PathAttribute>,
    ) -> (entry: Self)
        ensures
            entry@ == (EntryModel {
                nexthop,
                destination_address,
                status,
                path_attributes: models(path_attributes@),
                update_status: UpdateStatus::ShouldUpdate,
            }),
    {
        RoutingInformationEntry {
            nexthop,
            destination_address,
            status,
            path_attributes,
            update_status: UpdateStatus::ShouldUpdate,
        }
    }

    /// Whether the two are the same route: same next hop, same destination.
    pub fn same_route(&self, other: &Self) -> (same: bool)
        ensures
            same == same_route(self@, other@),
    {
        self.nexthop == other.nexthop && self.destination_address == other.destination_address
    }

    /// The first AS_PATH among the attributes of the route.
    pub fn get_as_path(&self) -> (path: &AsPath)
        requires
            first_as_path(self@.path_attributes) is Some,
        ensures
            Some(path@) == first_as_path(self@.path_attributes),
    {
        let mut i: usize = 0;
        assert(self@.path_attributes.skip(0) =~= self@.path_attributes);
        loop
            invariant
                i < self.path_attributes.len(),
                first_as_path(self@.path_attributes.skip(i as int)) is Some,
                first_as_path(self@.path_attributes) == first_as_path(
                    self@.path_attributes.skip(i as int),
                ),
            decreases self.path_attributes.len() - i,
        {
            let ghost rest = self@.path_attributes.skip(i as int);
            assert(rest.first() == self.path_attributes@[i as int]@);
            assert(rest.drop_first() =~= self@.path_attributes.skip(i + 1));
            match &self.path_attributes[i] {
                PathAttribute::AsPath(path) => {
                    return path;
                },
                _ => {},
            }
            i = i + 1;
        }
    }

    /// Adds `as_path_v` at the end of every AS_PATH of the route.
    pub fn add_as_path(&mut self, as_path_v: u16)
        ensures
            final(self)@ == (EntryModel {
                path_attributes: Seq::new(
                    old(self)@.path_attributes.len(),
                    |i: int| with_as_number(old(self)@.path_attributes[i], as_path_v),
                ),
                ..old(self)@
            }),
    {
        let mut i: usize = 0;
        while i < self.path_attributes.len()
            invariant
                i <= self.path_attributes.len(),
                self.path_attributes@.len() == old(self).path_attributes@.len(),
                self.nexthop == old(self).nexthop,
                self.destination_address == old(self).destination_address,
                self.status == old(self).status,
                self.update_status == old(self).update_status,
                forall|j: int|
                    0 <= j < i ==> (#[trigger] self.path_attributes@[j])@ == with_as_number(
                        old(self).path_attributes@[j]@,
                        as_path_v,
                    ),
                forall|j: int|
                    i <= j < self.path_attributes@.len() ==> #[trigger] self.path_attributes@[j]
                        == old(self).path_attributes@[j],
            decreases self.path_attributes.len() - i,
        {
            match &mut self.path_attributes[i] {
                PathAttribute::AsPath(AsPath::AsSequence(numbers)) => {
                    numbers.push(as_path_v);
                },
                PathAttribute::AsPath(AsPath::AsSet(numbers)) => {
                    numbers.push(as_path_v);
                },
                _ => {},
            }
            i = i + 1;
        }
        assert(self@.path_attributes =~= Seq::new(
            old(self)@.path_attributes.len(),
            |i: int| with_as_number(old(self)@.path_attributes[i], as_path_v),
        ));
    }

    /// Sets the address of every NEXT_HOP attribute of the route.
    pub fn change_nexthop(&mut self, nexthop: Ipv4Addr)
        ensures
            final(self)@ == (EntryModel {
                path_attributes: Seq::new(
                    old(self)@.path_attributes.len(),
                    |i: int| with_next_hop(old(self)@.path_attributes[i], nexthop),
                ),
                ..old(self)@
            }),
    {
        let mut i: usize = 0;
        while i < self.path_attributes.len()
            invariant
                i <= self.path_attributes.len(),
                self.path_attributes@.len() == old(self).path_attributes@.len(),
                self.nexthop == old(self).nexthop,
                self.destination_address == old(self).destination_address,
                self.status == old(self).status,
                self.update_status == old(self).update_status,
                forall|j: int|
                    0 <= j < i ==> (#[trigger] self.path_attributes@[j])@ == with_next_hop(
                        old(self).path_attributes@[j]@,
                        nexthop,
                    ),
                forall|j: int|
                    i <= j < self.path_attributes@.len() ==> #[trigger] self.path_attributes@[j]
                        == old(self).path_attributes@[j],
            decreases self.path_attributes.len() - i,
        {
            match &mut self.path_attributes[i] {
                PathAttribute::NextHop(n) => {
                    *n = nexthop;
                },
                _ => {},
            }
            i = i + 1;
        }
        assert(self@.path_attributes =~= Seq::new(
            old(self)@.path_attributes.len(),
            |i: int| with_next_hop(old(self)@.path_attributes[i], nexthop),
        ));
    }

    /// Sets the value of every ORIGIN attribute of the route.
    pub fn change_origin(&mut self, origin_v: Origin)
        ensures
            final(self)@ == (EntryModel {
                path_attributes: all_with_origin(old(self)@.path_attributes, origin_v),
                ..old(self)@
            }),
    {
        set_origins(&mut self.path_attributes, origin_v);
    }
}

/// Sets the value of every ORIGIN among the attributes.
pub fn set_origins(attributes: &mut Vec<PathAttribute>, origin: Origin)
    ensures
        models(final(attributes)@) == all_with_origin(models(old(attributes)@), origin),
{
    let mut i: usize = 0;
    while i < attributes.len()
        invariant
            i <= attributes.len(),
            attributes@.len() == old(attributes)@.len(),
            forall|j: int|
                0 <= j < i ==> (#[trigger] attributes@[j])@ == with_origin(
                    old(attributes)@[j]@,
                    origin,
                ),
            forall|j: int|
                i <= j < attributes@.len() ==> #[trigger] attributes@[j] == old(attributes)@[j],
        decreases attributes.len() - i,
    {
        match &mut attributes[i] {
            PathAttribute::Origin(o) => {
                *o = origin;
            },
            _ => {},
        }
        i = i + 1;
    }
    assert(models(attributes@) =~= all_with_origin(models(old(attributes)@), origin));
}

/// The address of the last NEXT_HOP among the attributes; 0.0.0.0 where
/// there is none.
pub fn find_next_hop(attributes: &Vec<PathAttribute>) -> (next_hop: Ipv4Addr)
    ensures
        next_hop == next_hop_of(models(attributes@)),
{
    let mut next_hop: Ipv4Addr = Ipv4Addr { bits: 0 };
    let mut i: usize = 0;
    while i < attributes.len()
        invariant
            i <= attributes.len(),
            next_hop == next_hop_of(models(attributes@).take(i as int)),
        decreases attributes.len() - i,
    {
        let ghost seen = models(attributes@).take(i + 1);
        assert(seen.last() == attributes@[i as int]@);
        assert(seen.drop_last() =~= models(attributes@).take(i as int));
        match &attributes[i] {
            PathAttribute::NextHop(address) => {
                next_hop = *address;
            },
            _ => {},
        }
        i = i + 1;
    }
    assert(models(attributes@).take(attributes.len() as int) =~= models(attributes@));
    next_hop
}

/// A routing information base. The routes are in the order in which they
/// entered; `wf` says that no two of them are the same route.
#[derive(Debug)]
pub struct Rib(pub Vec<RoutingInformationEntry>);

pub type LocRib = Rib;

pub type AdjRibOut = Rib;

pub type AdjRibIn = Rib;

impl View for Rib {
    type V = Seq<EntryModel>;

    open spec fn view(&self) -> Seq<EntryModel> {
        entry_models(self.0@)
    }
}

impl Clone for Rib {
    fn clone(&self) -> (copy: Self)
        ensures
            copy@ == self@,
    {
        let mut entries: Vec<RoutingInformationEntry> = Vec::new();
        let mut i: usize = 0;
        while i < self.0.len()
            invariant
                i <= self.0.len(),
                entries.len() == i,
                forall|j: int| 0 <= j < i ==> (#[trigger] entries@[j])@ == self.0@[j]@,
            decreases self.0.len() - i,
        {
            entries.push(self.0[i].clone());
            i = i + 1;
        }
        let copy = Rib(entries);
        assert(copy@ =~= self@);
        copy
    }
}

impl Rib {
    /// No two routes of the base have the same next hop and destination.
    pub open spec fn wf(&self) -> bool {
        unique(self@)
    }

    /// The base that results from offering the routes of `routing_table`,
    /// in order, to an empty base: a route that repeats an earlier one is
    /// left out.
    pub fn new(routing_table: Vec<RoutingInformationEntry>) -> (rib: Rib)
        ensures
            rib@ == inserted_all(Seq::empty(), entry_models(routing_table@)),
            rib.wf(),
    {
        let mut rib = Rib(Vec::new());
        assert(rib@ =~= Seq::<EntryModel>::empty());
        rib.add(routing_table);
        rib
    }

    /// Whether the base holds the route of `one_route`.
    pub fn contains(&self, one_route: &RoutingInformationEntry) -> (found: bool)
        ensures
            found == has_route(self@, one_route@),
    {
        let mut i: usize = 0;
        while i < self.0.len()
            invariant
                i <= self.0.len(),
                forall|j: int| 0 <= j < i ==> !same_route(#[trigger] self@[j], one_route@),
            decreases self.0.len() - i,
        {
            if self.0[i].same_route(one_route) {
                assert(same_route(self@[i as int], one_route@));
                return true;
            }
            i = i + 1;
        }
        false
    }

    /// Offers each route of `routing_information` to the base, in order.
    pub fn add(&mut self, routing_information: Vec<RoutingInformationEntry>)
        ensures
            final(self)@ == inserted_all(old(self)@, entry_models(routing_information@)),
            old(self).wf() ==> final(self).wf(),
    {
        self.add_copies(&routing_information);
    }

    /// One pass that brings the routes of `from` into this base: every route
    /// of this base is set to unchanged, then a copy of each route of `from`
    /// is offered to it as an updated route.
    pub fn propagate_from(&mut self, from: &Rib)
        ensures
            final(self)@ == propagated(from@, old(self)@),
            old(self).wf() ==> final(self).wf(),
    {
        self.change_state_of_all_routing_information_to_unchanged();
        let ghost marked = self@;
        let ghost offered = all_entered(from@);
        let mut i: usize = 0;
        assert(offered.take(0) =~= Seq::<EntryModel>::empty());
        while i < from.0.len()
            invariant
                i <= from.0.len(),
                offered == all_entered(from@),
                self@ == inserted_all(marked, offered.take(i as int)),
            decreases from.0.len() - i,
        {
            proof {
                lemma_inserted_all_push(marked, offered.take(i as int), offered[i as int]);
                assert(offered.take(i as int).push(offered[i as int]) =~= offered.take(i + 1));
            }
            let mut copy = from.0[i].clone();
            copy.status = RoutingInformationStatus::Updated;
            self.add_if_needed(copy);
            i = i + 1;
        }
        proof {
            assert(offered.take(from.0.len() as int) =~= offered);
            if old(self).wf() {
                lemma_inserted_all_unique(marked, offered);
            }
        }
    }

    /// Offers a copy of each route of `routing_information` to the base, in
    /// order.
    pub fn add_copies(&mut self, routing_information: &Vec<RoutingInformationEntry>)
        ensures
            final(self)@ == inserted_all(old(self)@, entry_models(routing_information@)),
            old(self).wf() ==> final(self).wf(),
    {
        let ghost offered = entry_models(routing_information@);
        let mut i: usize = 0;
        assert(offered.take(0) =~= Seq::<EntryModel>::empty());
        while i < routing_information.len()
            invariant
                i <= routing_information.len(),
                offered == entry_models(routing_information@),
                self@ == inserted_all(old(self)@, offered.take(i as int)),
            decreases routing_information.len() - i,
        {
            proof {
                lemma_inserted_all_push(old(self)@, offered.take(i as int), offered[i as int]);
                assert(offered.take(i as int).push(offered[i as int]) =~= offered.take(i + 1));
            }
            self.add_if_needed(routing_information[i].clone());
            i = i + 1;
        }
        proof {
            assert(offered.take(routing_information.len() as int) =~= offered);
            if old(self).wf() {
                lemma_inserted_all_unique(old(self)@, offered);
            }
        }
    }

    /// Offers one route to the base.
    pub fn add_one_entry(&mut self, one_route: RoutingInformationEntry)
        ensures
            final(self)@ == inserted(old(self)@, one_route@),
            old(self).wf() ==> final(self).wf(),
    {
        self.add_if_needed(one_route);
    }

    /// Puts `one_route` at the end of the base unless the base holds its
    /// route already.
    pub fn add_if_needed(&mut self, one_route: RoutingInformationEntry)
        ensures
            final(self)@ == inserted(old(self)@, one_route@),
            old(self).wf() ==> final(self).wf(),
    {
        proof {
            if old(self).wf() {
                lemma_inserted_unique(old(self)@, one_route@);
            }
        }
        if !self.contains(&one_route) {
            self.0.push(one_route);
            assert(self@ =~= old(self)@.push(one_route@));
        }
    }

    /// Whether some route of the base is new.
    pub fn does_have_new_route(&self) -> (found: bool)
        ensures
            found == has_new(self@),
    {
        let mut i: usize = 0;
        while i < self.0.len()
            invariant
                i <= self.0.len(),
                forall|j: int| 0 <= j < i ==> !is_new(#[trigger] self@[j]),
            decreases self.0.len() - i,
        {
            match self.0[i].status {
                RoutingInformationStatus::UnChanged => {},
                _ => {
                    assert(is_new(self@[i as int]));
                    return true;
                },
            }
            i = i + 1;
        }
        false
    }

    /// Whether some route of the base is not yet put into the host's table.
    pub fn does_have_should_update_route(&self) -> (found: bool)
        ensures
            found == exists|i: int|
                0 <= i < self@.len() && (#[trigger] self@[i]).update_status
                    == UpdateStatus::ShouldUpdate,
    {
        let mut i: usize = 0;
        while i < self.0.len()
            invariant
                i <= self.0.len(),
                forall|j: int|
                    0 <= j < i ==> (#[trigger] self@[j]).update_status
                        != UpdateStatus::ShouldUpdate,
            decreases self.0.len() - i,
        {
            match self.0[i].update_status {
                UpdateStatus::ShouldUpdate => {
                    assert(self@[i as int].update_status == UpdateStatus::ShouldUpdate);
                    return true;
                },
                _ => {},
            }
            i = i + 1;
        }
        false
    }

    /// Sets the status of every route to unchanged.
    pub fn change_state_of_all_routing_information_to_unchanged(&mut self)
        ensures
            final(self)@ == marked_unchanged(old(self)@),
            old(self).wf() ==> final(self).wf(),
    {
        let mut i: usize = 0;
        while i < self.0.len()
            invariant
                i <= self.0.len(),
                self.0@.len() == old(self).0@.len(),
                forall|j: int| 0 <= j < i ==> (#[trigger] self.0@[j])@ == settled(old(self).0@[j]@),
                forall|j: int|
                    i <= j < self.0@.len() ==> #[trigger] self.0@[j] == old(self).0@[j],
            decreases self.0.len() - i,
        {
            self.0[i].status = RoutingInformationStatus::UnChanged;
            i = i + 1;
        }
        assert(self@ =~= marked_unchanged(old(self)@));
        proof {
            lemma_marked_unchanged_holds(old(self)@, arbitrary());
        }
    }

    /// Marks every route as put into the host's table.
    pub fn change_update_state_of_all_routing_information_to_updated(&mut self)
        ensures
            final(self)@ == marked_installed(old(self)@),
    {
        let mut i: usize = 0;
        while i < self.0.len()
            invariant
                i <= self.0.len(),
                self.0@.len() == old(self).0@.len(),
                forall|j: int|
                    0 <= j < i ==> (#[trigger] self.0@[j])@ == installed(old(self).0@[j]@),
                forall|j: int|
                    i <= j < self.0@.len() ==> #[trigger] self.0@[j] == old(self).0@[j],
            decreases self.0.len() - i,
        {
            self.0[i].update_status = UpdateStatus::Updated;
            i = i + 1;
        }
        assert(self@ =~= marked_installed(old(self)@));
    }

    /// Takes in the routes that an UPDATE announces: for each announced
    /// prefix, one new route with the next hop that the NEXT_HOP attribute
    /// names and a copy of the attributes in which the origin is EGP. A
    /// route that the base holds already is left as it is.
    pub fn add_from_update_message(
        &mut self,
        update_message: BgpUpdateMessage,
        my_as_number: &AutonomousSystemNumber,
    )
        ensures
            final(self)@ == inserted_all(
                old(self)@,
                learned_entries(
                    update_message@.path_attributes,
                    update_message@.network_layer_reachability_information,
                ),
            ),
            old(self).wf() ==> final(self).wf(),
    {
        let nexthop: Ipv4Addr = find_next_hop(&update_message.path_attributes);
        let mut path_attributes: Vec<PathAttribute> = clone_attributes(
            &update_message.path_attributes,
        );
        set_origins(&mut path_attributes, Origin::Egp);
        let announced: &Vec<IpPrefix> = &update_message.network_layer_reachability_information;
        let mut routing_information: Vec<RoutingInformationEntry> = Vec::new();
        let mut i: usize = 0;
        while i < announced.len()
            invariant
                i <= announced.len(),
                routing_information.len() == i,
                models(path_attributes@) == all_with_origin(
                    update_message@.path_attributes,
                    Origin::Egp,
                ),
                nexthop == next_hop_of(update_message@.path_attributes),
                forall|j: int|
                    0 <= j < i ==> (#[trigger] routing_information@[j])@ == learned_entry(
                        update_message@.path_attributes,
                        announced@[j],
                    ),
            decreases announced.len() - i,
        {
            routing_information.push(
                RoutingInformationEntry::new(
                    nexthop,
                    announced[i],
                    RoutingInformationStatus::Updated,
                    clone_attributes(&path_attributes),
                ),
            );
            i = i + 1;
        }
        assert(entry_models(routing_information@) =~= learned_entries(
            update_message@.path_attributes,
            update_message@.network_layer_reachability_information,
        ));
        self.add(routing_information);
    }

    /// Takes in routes of the host: for each one that has a destination, one
    /// new route with the gateway as next hop and a copy of
    /// `path_attributes`. A route that the base holds already is left as it
    /// is.
    pub fn add_from_route_message(
        &mut self,
        routing_information: &Vec<KernelRoute>,
        path_attributes: Vec<PathAttribute>,
    )
        ensures
            final(self)@ == inserted_all(
                old(self)@,
                kernel_entries(routing_information@, models(path_attributes@)),
            ),
            old(self).wf() ==> final(self).wf(),
    {
        let ghost with_destination = |route: KernelRoute| has_destination(route);
        let ghost to_entry = |route: KernelRoute| kernel_entry(route, models(path_attributes@));
        let mut entries: Vec<RoutingInformationEntry> = Vec::new();
        let mut i: usize = 0;
        assert(routing_information@.take(0).filter(with_destination).map_values(to_entry)
            =~= Seq::<EntryModel>::empty());
        while i < routing_information.len()
            invariant
                i <= routing_information.len(),
                with_destination == |route: KernelRoute| has_destination(route),
                to_entry == |route: KernelRoute| kernel_entry(route, models(path_attributes@)),
                entry_models(entries@) == routing_information@.take(i as int).filter(
                    with_destination,
                ).map_values(to_entry),
            decreases routing_information.len() - i,
        {
            let route: KernelRoute = routing_information[i];
            let ghost seen = routing_information@.take(i as int);
            proof {
                assert(routing_information@.take(i + 1) =~= seen.push(route));
                Seq::lemma_filter_push(seen, route, with_destination);
                assert(seen.filter(with_destination).push(route).map_values(to_entry)
                    =~= seen.filter(with_destination).map_values(to_entry).push(to_entry(route)));
            }
            match route.destination {
                Some(destination_address) => {
                    let gateway: Ipv4Addr = match route.gateway {
                        Some(gateway) => gateway,
                        None => Ipv4Addr { bits: 0 },
                    };
                    let entry = RoutingInformationEntry::new(
                        gateway,
                        destination_address,
                        RoutingInformationStatus::Updated,
                        clone_attributes(&path_attributes),
                    );
                    proof {
                        assert(entry_models(entries@.push(entry)) =~= entry_models(entries@).push(
                            entry@,
                        ));
                    }
                    entries.push(entry);
                },
                None => {},
            }
            i = i + 1;
        }
        assert(routing_information@.take(routing_information.len() as int)
            =~= routing_information@);
        self.add(entries);
    }

    /// Copies of the new routes of the base, in its order.
    pub fn get_new_route(&self) -> (routes: Vec<RoutingInformationEntry>)
        ensures
            entry_models(routes@) == new_routes(self@),
    {
        let ghost new = |entry: EntryModel| is_new(entry);
        let mut routes: Vec<RoutingInformationEntry> = Vec::new();
        let mut i: usize = 0;
        assert(self@.take(0).filter(new) =~= Seq::<EntryModel>::empty());
        while i < self.0.len()
            invariant
                i <= self.0.len(),
                new == |entry: EntryModel| is_new(entry),
                entry_models(routes@) == self@.take(i as int).filter(new),
            decreases self.0.len() - i,
        {
            proof {
                assert(self@.take(i + 1) =~= self@.take(i as int).push(self@[i as int]));
                Seq::lemma_filter_push(self@.take(i as int), self@[i as int], new);
            }
            match self.0[i].status {
                RoutingInformationStatus::UnChanged => {},
                _ => {
                    let entry = self.0[i].clone();
                    proof {
                        assert(entry_models(routes@.push(entry)) =~= entry_models(routes@).push(
                            entry@,
                        ));
                    }
                    routes.push(entry);
                },
            }
            i = i + 1;
        }
        assert(self@.take(self.0.len() as int) =~= self@);
        routes
    }

    /// The first route that is to be put into the host's table, with the
    /// request that does so; `None` where no route awaits it.
    pub fn next_route_to_install(&self) -> (next: Option<(usize, KernelRouteRequest)>)
        ensures
            match next {
                Some((i, request)) => {
                    &&& i < self@.len()
                    &&& awaits_install(self@[i as int])
                    &&& forall|j: int| 0 <= j < i ==> !awaits_install(#[trigger] self@[j])
                    &&& request == install_request(self@[i as int])
                },
                None => forall|j: int| 0 <= j < self@.len() ==> !awaits_install(#[trigger] self@[j]),
            },
    {
        let mut i: usize = 0;
        while i < self.0.len()
            invariant
                i <= self.0.len(),
                forall|j: int| 0 <= j < i ==> !awaits_install(#[trigger] self@[j]),
            decreases self.0.len() - i,
        {
            let entry: &RoutingInformationEntry = &self.0[i];
            let updated: bool = match entry.status {
                RoutingInformationStatus::Updated => true,
                _ => false,
            };
            let waiting: bool = match entry.update_status {
                UpdateStatus::ShouldUpdate => true,
                _ => false,
            };
            if updated && waiting {
                assert(awaits_install(self@[i as int]));
                return Some(
                    (
                        i,
                        KernelRouteRequest {
                            protocol: KERNEL_PROTOCOL,
                            destination: entry.destination_address,
                            gateway: entry.nexthop,
                        },
                    ),
                );
            }
            i = i + 1;
        }
        None
    }

    /// Marks route `index` as put into the host's table.
    pub fn mark_installed(&mut self, index: usize)
        requires
            index < old(self)@.len(),
        ensures
            final(self)@ == old(self)@.update(index as int, installed(old(self)@[index as int])),
            old(self).wf() ==> final(self).wf(),
    {
        self.0[index].update_status = UpdateStatus::Updated;
        assert(self@ =~= old(self)@.update(index as int, installed(old(self)@[index as int])));
        proof {
            if old(self).wf() {
                assert forall|i: int, j: int| 0 <= i < j < self@.len() implies !same_route(
                    #[trigger] self@[i],
                    #[trigger] self@[j],
                ) by {
                    assert(!same_route(old(self)@[i], old(self)@[j]));
                }
            }
        }
    }
}

} // verus!
