//! The networks in reach and the Bluetooth devices, as the services on the system bus describe them.
use vstd::prelude::*;

use crate::dbus::wire;
use crate::dbus::wire::{Properties, WireValue};
use crate::domain::state;
use crate::domain::state::{
    BluetoothDevice, BluetoothDeviceView, BluetoothPendingAction, BluetoothPendingActionView,
    BluetoothState, BluetoothStateView, NetworkAccessPoint, NetworkAccessPointView,
};
use crate::lists;
use crate::seqs;
use crate::text;
use crate::value;
use crate::value::Value;

verus! {

/// Whether two access points are of one network and in one band.
pub open spec fn same_network(a: NetworkAccessPointView, b: NetworkAccessPointView) -> bool {
    a.ssid == b.ssid && state::band_label(a.frequency) == state::band_label(b.frequency)
}

fn is_same_network(a: &NetworkAccessPoint, b: &NetworkAccessPoint) -> (r: bool)
    ensures
        r == same_network(a.deep_view(), b.deep_view()),
{
    let band = state::wifi_band(a.frequency).to_owned();
    a.ssid.same(&b.ssid) && value::is_text(&band, state::wifi_band(b.frequency))
}

/// The access points left of some with one more: of those of one network in one band, the first of
/// the strongest ones stays, and it counts as active where one that it took the place of did.
pub open spec fn with_candidate(
    left: Seq<NetworkAccessPointView>,
    candidate: NetworkAccessPointView,
) -> Seq<NetworkAccessPointView> {
    if text::is_blank(candidate.ssid) {
        left
    } else {
        match seqs::index_in(left, |a: NetworkAccessPointView| same_network(a, candidate)) {
            None => left.push(candidate),
            Some(i) => if candidate.strength > left[i].strength {
                left.update(
                    i,
                    NetworkAccessPointView {
                        is_active: candidate.is_active || left[i].is_active,
                        ..candidate
                    },
                )
            } else {
                left
            },
        }
    }
}

/// The access points left of some: one for each network and band that has a name.
pub open spec fn strongest(points: Seq<NetworkAccessPointView>) -> Seq<NetworkAccessPointView>
    decreases points.len(),
{
    if points.len() == 0 {
        Seq::empty()
    } else {
        with_candidate(strongest(points.drop_last()), points.last())
    }
}

/// The order in which access points are shown: the stronger first, those as strong by name.
pub open spec fn shown_before(a: NetworkAccessPointView, b: NetworkAccessPointView) -> bool {
    a.strength > b.strength || (a.strength == b.strength && text::text_le(a.ssid, b.ssid))
}

/// The access points to show.
pub open spec fn inventory(points: Seq<NetworkAccessPointView>) -> Seq<NetworkAccessPointView> {
    seqs::stable_sorted(
        strongest(points),
        |a: NetworkAccessPointView, b: NetworkAccessPointView| shown_before(a, b),
    )
}

fn take_candidate(left: &mut Vec<NetworkAccessPoint>, candidate: NetworkAccessPoint)
    ensures
        final(left).deep_view() == with_candidate(
            old(left).deep_view(),
            candidate.deep_view(),
        ),
{
    if text::blank(candidate.ssid.as_str()) {
        return;
    }
    let test = |a: &NetworkAccessPoint| -> (b: bool)
        ensures
            b == same_network(a.deep_view(), candidate.deep_view()),
    {
        is_same_network(a, &candidate)
    };
    let ghost wanted = candidate.deep_view();
    let found = lists::index(
        left,
        test,
        Ghost(|a: NetworkAccessPointView| same_network(a, wanted)),
    );
    match found {
        None => {
            lists::push(left, candidate);
        },
        Some(i) => {
            if candidate.strength > left[i].strength {
                let is_active = candidate.is_active || left[i].is_active;
                let stronger = NetworkAccessPoint { is_active, ..candidate };
                lists::replace(left, i, stronger);
            }
        },
    }
}

/// The access points to show of those in reach.
pub fn deduplicate_wifi_access_points(points: Vec<NetworkAccessPoint>) -> (r: Vec<
    NetworkAccessPoint,
>)
    ensures
        r.deep_view() == inventory(points.deep_view()),
{
    let ghost all = points.deep_view();
    let ghost mut seen: int = 0;
    let mut rest = points;
    let mut left: Vec<NetworkAccessPoint> = Vec::new();
    assert(all.take(0) =~= Seq::<NetworkAccessPointView>::empty());
    assert(all.skip(0) =~= all);
    assert(left.deep_view() =~= Seq::<NetworkAccessPointView>::empty());
    while rest.len() > 0
        invariant
            0 <= seen <= all.len(),
            rest.deep_view() == all.skip(seen),
            left.deep_view() == strongest(all.take(seen)),
        decreases rest.len(),
    {
        let ghost before = rest.deep_view();
        let candidate = rest.remove(0);
        assert(rest.deep_view() =~= before.remove(0));
        assert(before[0] == candidate.deep_view());
        assert(before.remove(0) =~= all.skip(seen + 1));
        assert(all.take(seen + 1).drop_last() =~= all.take(seen));
        assert(all.take(seen + 1).last() == candidate.deep_view());
        take_candidate(&mut left, candidate);
        proof {
            seen = seen + 1;
        }
    }
    assert(all.take(seen) =~= all);
    let not_after = |a: &NetworkAccessPoint, b: &NetworkAccessPoint| -> (r: bool)
        ensures
            r == shown_before(a.deep_view(), b.deep_view()),
    {
        a.strength > b.strength || (a.strength == b.strength && text::not_after(
            a.ssid.as_str(),
            b.ssid.as_str(),
        ))
    };
    lists::sort(
        left,
        not_after,
        Ghost(|a: NetworkAccessPointView, b: NetworkAccessPointView| shown_before(a, b)),
    )
}

/// No two access points that are left are of one network and in one band, none of them is without
/// a name, and each that was in reach has one that is left at its side which is no weaker.
pub proof fn lemma_strongest(points: Seq<NetworkAccessPointView>)
    ensures
        forall|i: int, j: int|
            0 <= i < j < strongest(points).len() ==> !same_network(
                #[trigger] strongest(points)[i],
                #[trigger] strongest(points)[j],
            ),
        forall|i: int| 0 <= i < strongest(points).len() ==> !text::is_blank((#[trigger] strongest(points)[i]).ssid),
        forall|k: int|
            0 <= k < points.len() && !text::is_blank((#[trigger] points[k]).ssid) ==> beaten(
                strongest(points),
                points[k],
            ),
    decreases points.len(),
{
    if points.len() > 0 {
        let before = points.drop_last();
        let left = strongest(before);
        let candidate = points.last();
        lemma_strongest(before);
        let p = |a: NetworkAccessPointView| same_network(a, candidate);
        seqs::lemma_index_props(left, p);
        let now = strongest(points);
        if !text::is_blank(candidate.ssid) {
            match seqs::index_in(left, p) {
                None => {
                    assert(now == left.push(candidate));
                    assert(same_network(now.last(), candidate));
                    assert(no_weaker(now, now.len() - 1, candidate));
                },
                Some(i) => {
                    assert(same_network(left[i], candidate));
                    assert(same_network(now[i], candidate));
                    assert(no_weaker(now, i, candidate));
                },
            }
        }
        assert forall|k: int|
            0 <= k < points.len() && !text::is_blank((#[trigger] points[k]).ssid) implies beaten(
            now,
            points[k],
        ) by {
            if k < before.len() {
                assert(before[k] == points[k]);
                assert(beaten(left, points[k]));
                let i = choose|i: int| #[trigger] no_weaker(left, i, points[k]);
                assert(no_weaker(now, i, points[k]));
            }
        }
    }
}

/// Whether an access point is of the network and band of another one, and no weaker.
pub open spec fn no_weaker(
    left: Seq<NetworkAccessPointView>,
    i: int,
    point: NetworkAccessPointView,
) -> bool {
    0 <= i < left.len() && same_network(left[i], point) && left[i].strength >= point.strength
}

/// Whether an access point that is left is of the network and band of another one, and no weaker.
pub open spec fn beaten(left: Seq<NetworkAccessPointView>, point: NetworkAccessPointView) -> bool {
    exists|i: int| #[trigger] no_weaker(left, i, point)
}

/// The access points to show are in order, and are those that are left.
pub proof fn lemma_inventory_ordered(points: Seq<NetworkAccessPointView>)
    ensures
        seqs::is_ordered(
            inventory(points),
            |a: NetworkAccessPointView, b: NetworkAccessPointView| shown_before(a, b),
        ),
        inventory(points).to_multiset() == strongest(points).to_multiset(),
        inventory(points).len() == strongest(points).len(),
{
    let le = |a: NetworkAccessPointView, b: NetworkAccessPointView| shown_before(a, b);
    assert(seqs::is_total_order(le)) by {
        assert forall|a: NetworkAccessPointView, b: NetworkAccessPointView| #[trigger]
            le(a, b) || le(b, a) by {
            text::lemma_text_le_total(a.ssid, b.ssid);
        }
        assert forall|
            a: NetworkAccessPointView,
            b: NetworkAccessPointView,
            c: NetworkAccessPointView,
        | #[trigger] le(a, b) && #[trigger] le(b, c) implies le(a, c) by {
            if text::text_le(a.ssid, b.ssid) && text::text_le(b.ssid, c.ssid) {
                text::lemma_text_le_transitive(a.ssid, b.ssid, c.ssid);
            }
        }
    }
    seqs::lemma_sorted_ordered(strongest(points), le);
    seqs::lemma_sorted_multiset(strongest(points), le);
}

/// An object of the Bluetooth service: its path, and the properties of the interfaces that it has.
#[derive(Debug, Eq, PartialEq)]
pub struct BluezObject {
    pub path: String,
    pub adapter: Option<Properties>,
    pub device: Option<Properties>,
}

/// The text of a property, empty where there is none.
pub open spec fn text_property(properties: Seq<(Seq<char>, WireValue)>, name: Seq<char>) -> Seq<
    char,
> {
    match wire::property(properties, name) {
        Some(v) => match wire::text_of(v) {
            Some(s) => s,
            None => Seq::empty(),
        },
        None => Seq::empty(),
    }
}

/// The text of a property, empty where there is none.
pub fn bluetooth_string(properties: &Properties, name: &str) -> (r: String)
    ensures
        r@ == text_property(wire::named(properties@), name@),
{
    if let Some(v) = wire::get_property(properties, name) {
        if let Some(s) = wire::as_text(v) {
            return s.dup();
        }
    }
    let empty = String::new();
    assert(empty@ =~= Seq::<char>::empty());
    empty
}

/// The truth value of a property, false where there is none.
pub open spec fn flag_property(properties: Seq<(Seq<char>, WireValue)>, name: Seq<char>) -> bool {
    wire::property(properties, name) matches Some(v) && wire::flag_of(v) == Some(true)
}

/// The truth value of a property, false where there is none.
pub fn bluetooth_bool(properties: &Properties, name: &str) -> (r: bool)
    ensures
        r == flag_property(wire::named(properties@), name@),
{
    match wire::get_property(properties, name) {
        Some(v) => match wire::as_flag(v) {
            Some(flag) => flag,
            None => false,
        },
        None => false,
    }
}

/// The device that an object is, with its name in place of an alias that is empty.
pub open spec fn device_of(path: Seq<char>, properties: Seq<(Seq<char>, WireValue)>) -> BluetoothDeviceView {
    let alias = text_property(properties, "Alias"@);
    let name = text_property(properties, "Name"@);
    BluetoothDeviceView {
        path,
        address: text_property(properties, "Address"@),
        alias: if alias.len() == 0 {
            name
        } else {
            alias
        },
        name,
        paired: flag_property(properties, "Paired"@),
        trusted: flag_property(properties, "Trusted"@),
        connected: flag_property(properties, "Connected"@),
    }
}

fn read_device(path: &String, properties: &Properties) -> (r: BluetoothDevice)
    ensures
        r.deep_view() == device_of(path@, wire::named(properties@)),
{
    let alias = bluetooth_string(properties, "Alias");
    let name = bluetooth_string(properties, "Name");
    let alias = if alias.as_str().unicode_len() == 0 {
        name.dup()
    } else {
        alias
    };
    BluetoothDevice {
        path: path.dup(),
        address: bluetooth_string(properties, "Address"),
        alias,
        name,
        paired: bluetooth_bool(properties, "Paired"),
        trusted: bluetooth_bool(properties, "Trusted"),
        connected: bluetooth_bool(properties, "Connected"),
    }
}

/// Whether an object is an adapter.
pub open spec fn is_adapter(o: BluezObject) -> bool {
    o.adapter is Some
}

/// Whether an object is an adapter with power.
pub open spec fn is_powered(o: BluezObject) -> bool {
    o.adapter matches Some(p) && flag_property(wire::named(p@), "Powered"@)
}

/// The devices that objects are.
pub open spec fn devices_of(objects: Seq<BluezObject>) -> Seq<BluetoothDeviceView>
    decreases objects.len(),
{
    if objects.len() == 0 {
        Seq::empty()
    } else {
        match objects.last().device {
            Some(p) => devices_of(objects.drop_last()).push(
                device_of(objects.last().path@, wire::named(p@)),
            ),
            None => devices_of(objects.drop_last()),
        }
    }
}

/// The devices to show: those that are connected or paired, by their paths.
pub open spec fn known_devices(devices: Seq<BluetoothDeviceView>) -> Seq<BluetoothDeviceView> {
    seqs::stable_sorted(
        devices.filter(|d: BluetoothDeviceView| d.connected || d.paired),
        |a: BluetoothDeviceView, b: BluetoothDeviceView| text::text_le(a.path, b.path),
    )
}

/// What the objects of the Bluetooth service say.
pub open spec fn bluetooth_of(objects: Seq<BluezObject>) -> BluetoothStateView {
    BluetoothStateView {
        available: exists|i: int| 0 <= i < objects.len() && is_adapter(#[trigger] objects[i]),
        powered: exists|i: int| 0 <= i < objects.len() && is_powered(#[trigger] objects[i]),
        devices: known_devices(devices_of(objects)),
    }
}

/// What the objects of the Bluetooth service say.
pub fn bluetooth_snapshot(objects: &Vec<BluezObject>) -> (r: BluetoothState)
    ensures
        r.deep_view() == bluetooth_of(objects@),
{
    let mut available = false;
    let mut powered = false;
    let mut devices: Vec<BluetoothDevice> = Vec::new();
    let mut i: usize = 0;
    assert(objects@.take(0) =~= Seq::<BluezObject>::empty());
    assert(devices.deep_view() =~= Seq::<BluetoothDeviceView>::empty());
    while i < objects.len()
        invariant
            i <= objects.len(),
            available == exists|k: int| 0 <= k < i && is_adapter(#[trigger] objects@[k]),
            powered == exists|k: int| 0 <= k < i && is_powered(#[trigger] objects@[k]),
            devices.deep_view() == devices_of(objects@.take(i as int)),
        decreases objects.len() - i,
    {
        assert(objects@.take(i + 1).drop_last() =~= objects@.take(i as int));
        assert(objects@.take(i + 1).last() == objects@[i as int]);
        if let Some(adapter) = &objects[i].adapter {
            assert(is_adapter(objects@[i as int]));
            available = true;
            if bluetooth_bool(adapter, "Powered") {
                assert(is_powered(objects@[i as int]));
                powered = true;
            }
        }
        if let Some(device) = &objects[i].device {
            let device = read_device(&objects[i].path, device);
            lists::push(&mut devices, device);
        }
        i += 1;
    }
    assert(objects@.take(i as int) =~= objects@);
    let keep = |d: &BluetoothDevice| -> (b: bool)
        ensures
            b == (d.deep_view().connected || d.deep_view().paired),
    {
        d.connected || d.paired
    };
    lists::retain(
        &mut devices,
        keep,
        Ghost(|d: BluetoothDeviceView| d.connected || d.paired),
    );
    let not_after = |a: &BluetoothDevice, b: &BluetoothDevice| -> (r: bool)
        ensures
            r == text::text_le(a.deep_view().path, b.deep_view().path),
    {
        text::not_after(a.path.as_str(), b.path.as_str())
    };
    let devices = lists::sort(
        devices,
        not_after,
        Ghost(|a: BluetoothDeviceView, b: BluetoothDeviceView| text::text_le(a.path, b.path)),
    );
    BluetoothState { available, powered, devices }
}

/// A request to the Bluetooth service is to be made, unless the same one is under way already.
pub fn start_bluetooth_action(
    in_flight: &mut Vec<BluetoothPendingAction>,
    action: &BluetoothPendingAction,
) -> (r: bool)
    ensures
        r == !old(in_flight).deep_view().contains(action.deep_view()),
        final(in_flight).deep_view() == (if r {
            old(in_flight).deep_view().push(action.deep_view())
        } else {
            old(in_flight).deep_view()
        }),
{
    if lists::contains(in_flight, action) {
        return false;
    }
    lists::push(in_flight, action.dup());
    true
}

/// A request to the Bluetooth service is not under way any more.
pub fn finish_bluetooth_action(
    in_flight: &mut Vec<BluetoothPendingAction>,
    action: &BluetoothPendingAction,
)
    ensures
        final(in_flight).deep_view() == old(in_flight).deep_view().filter(
            |a: BluetoothPendingActionView| a != action.deep_view(),
        ),
{
    let other = |a: &BluetoothPendingAction| -> (b: bool)
        ensures
            b == (a.deep_view() != action.deep_view()),
    {
        !a.same(action)
    };
    lists::retain(
        in_flight,
        other,
        Ghost(|a: BluetoothPendingActionView| a != action.deep_view()),
    );
}

/// A request can be made again once it is not under way any more, and not before.
pub proof fn lemma_one_request_at_a_time(
    in_flight: Seq<BluetoothPendingActionView>,
    action: BluetoothPendingActionView,
)
    ensures
        in_flight.push(action).contains(action),
        !in_flight.push(action).filter(|a: BluetoothPendingActionView| a != action).contains(
            action,
        ),
{
    assert(in_flight.push(action)[in_flight.len() as int] == action);
    seqs::lemma_filter_members(
        in_flight.push(action),
        |a: BluetoothPendingActionView| a != action,
        action,
    );
}

/// Whether two frequencies are in one radio band.
pub open spec fn in_one_band(a: u32, b: u32) -> bool {
    &&& (2400 <= a <= 2500) == (2400 <= b <= 2500)
    &&& (4900 <= a <= 6000) == (4900 <= b <= 6000)
}

proof fn lemma_bands(a: u32, b: u32)
    ensures
        (state::band_label(a) == state::band_label(b)) == in_one_band(a, b),
{
    reveal_strlit("2.4 GHz");
    reveal_strlit("5 GHz");
    reveal_strlit("unknown band");
    assert("2.4 GHz"@.len() == 7);
    assert("5 GHz"@.len() == 5);
    assert("unknown band"@.len() == 12);
}

/// Whether an access point that is shown is one of those in reach. Only whether it is active may be
/// taken over from another one of its network and band.
pub open spec fn comes_from(
    points: Seq<NetworkAccessPointView>,
    shown: NetworkAccessPointView,
) -> bool {
    &&& exists|k: int|
        0 <= k < points.len() && shown == (NetworkAccessPointView {
            is_active: shown.is_active,
            ..#[trigger] points[k]
        }) && (points[k].is_active ==> shown.is_active)
    &&& shown.is_active ==> exists|k: int|
        0 <= k < points.len() && (#[trigger] points[k]).is_active && points[k].ssid == shown.ssid
            && in_one_band(points[k].frequency, shown.frequency)
}

proof fn lemma_left_come_from(points: Seq<NetworkAccessPointView>)
    ensures
        forall|i: int|
            0 <= i < strongest(points).len() ==> comes_from(points, #[trigger] strongest(points)[i]),
    decreases points.len(),
{
    if points.len() > 0 {
        let before = points.drop_last();
        let left = strongest(before);
        let candidate = points.last();
        let last = points.len() - 1;
        lemma_left_come_from(before);
        let p = |a: NetworkAccessPointView| same_network(a, candidate);
        seqs::lemma_index_props(left, p);
        let now = strongest(points);
        assert(points[last] == candidate);
        assert forall|i: int| 0 <= i < now.len() implies comes_from(points, #[trigger] now[i]) by {
            if i < left.len() && now[i] == left[i] {
                lemma_comes_from_more(points, left[i]);
            } else if now[i] == candidate {
                assert(comes_from(points, candidate));
            } else {
                assert(same_network(left[i], candidate));
                lemma_bands(left[i].frequency, candidate.frequency);
                assert(comes_from(before, left[i]));
                lemma_comes_from_more(points, left[i]);
                assert(now[i] == (NetworkAccessPointView {
                    is_active: now[i].is_active,
                    ..points[last]
                }));
                if now[i].is_active && !candidate.is_active {
                    let k = choose|k: int|
                        0 <= k < points.len() && (#[trigger] points[k]).is_active && points[k].ssid
                            == left[i].ssid && in_one_band(points[k].frequency, left[i].frequency);
                    assert(points[k].is_active && points[k].ssid == now[i].ssid && in_one_band(
                        points[k].frequency,
                        now[i].frequency,
                    ));
                }
            }
        }
    }
}

proof fn lemma_comes_from_more(
    points: Seq<NetworkAccessPointView>,
    shown: NetworkAccessPointView,
)
    requires
        points.len() > 0,
        comes_from(points.drop_last(), shown),
    ensures
        comes_from(points, shown),
{
    let before = points.drop_last();
    let k = choose|k: int|
        0 <= k < before.len() && shown == (NetworkAccessPointView {
            is_active: shown.is_active,
            ..#[trigger] before[k]
        }) && (before[k].is_active ==> shown.is_active);
    assert(before[k] == points[k]);
    if shown.is_active {
        let j = choose|j: int|
            0 <= j < before.len() && (#[trigger] before[j]).is_active && before[j].ssid == shown.ssid
                && in_one_band(before[j].frequency, shown.frequency);
        assert(points[j] == before[j]);
    }
}

/// Whether some access point is of the network and in the band of another one and no weaker.
pub open spec fn stands_in(
    shown: Seq<NetworkAccessPointView>,
    point: NetworkAccessPointView,
) -> bool {
    exists|i: int|
        0 <= i < shown.len() && (#[trigger] shown[i]).ssid == point.ssid && in_one_band(
            shown[i].frequency,
            point.frequency,
        ) && shown[i].strength >= point.strength
}

/// The networks in reach are shown from the strongest to the weakest, those as strong by name. Each is
/// shown once in each band, by an access point that none of the others of the network in the band
/// is stronger than. Nothing is shown that is not in reach.
pub proof fn lemma_networks_are_shown(points: Seq<NetworkAccessPointView>)
    ensures
        ({
            let shown = inventory(points);
            &&& forall|i: int, j: int|
                0 <= i < j < shown.len() ==> {
                    &&& (#[trigger] shown[i]).strength >= (#[trigger] shown[j]).strength
                    &&& shown[i].strength == shown[j].strength ==> text::text_le(
                        shown[i].ssid,
                        shown[j].ssid,
                    )
                }
            &&& forall|i: int, j: int|
                0 <= i < shown.len() && 0 <= j < shown.len() && i != j ==> !((
                #[trigger] shown[i]).ssid == (#[trigger] shown[j]).ssid && in_one_band(
                    shown[i].frequency,
                    shown[j].frequency,
                ))
            &&& forall|i: int| 0 <= i < shown.len() ==> comes_from(points, #[trigger] shown[i])
            &&& forall|k: int|
                0 <= k < points.len() && !text::is_blank((#[trigger] points[k]).ssid) ==> stands_in(
                    shown,
                    points[k],
                )
        }),
{
    let left = strongest(points);
    let shown = inventory(points);
    let le = |a: NetworkAccessPointView, b: NetworkAccessPointView| shown_before(a, b);
    lemma_strongest(points);
    lemma_inventory_ordered(points);
    lemma_left_come_from(points);
    assert forall|i: int, j: int| 0 <= i < j < shown.len() implies {
        &&& (#[trigger] shown[i]).strength >= (#[trigger] shown[j]).strength
        &&& shown[i].strength == shown[j].strength ==> text::text_le(shown[i].ssid, shown[j].ssid)
    } by {
        assert(le(shown[i], shown[j]));
    }
    assert forall|i: int| 0 <= i < shown.len() implies comes_from(points, #[trigger] shown[i]) by {
        seqs::lemma_sorted_members(left, le, shown[i]);
        assert(shown.contains(shown[i]));
    }
    lemma_left_apart(left);
    left.lemma_multiset_has_no_duplicates();
    shown.lemma_multiset_has_no_duplicates_conv();
    assert forall|i: int, j: int|
        0 <= i < shown.len() && 0 <= j < shown.len() && i != j implies !((
    #[trigger] shown[i]).ssid == (#[trigger] shown[j]).ssid && in_one_band(
        shown[i].frequency,
        shown[j].frequency,
    )) by {
        seqs::lemma_sorted_members(left, le, shown[i]);
        seqs::lemma_sorted_members(left, le, shown[j]);
        assert(shown.contains(shown[i]) && shown.contains(shown[j]));
        let a = choose|a: int| 0 <= a < left.len() && left[a] == shown[i];
        let b = choose|b: int| 0 <= b < left.len() && left[b] == shown[j];
        assert(shown[i] != shown[j]);
        assert(a != b);
        lemma_bands(left[a].frequency, left[b].frequency);
        if a < b {
            assert(!same_network(left[a], left[b]));
        } else {
            assert(!same_network(left[b], left[a]));
        }
    }
    assert forall|k: int|
        0 <= k < points.len() && !text::is_blank((#[trigger] points[k]).ssid) implies stands_in(
        shown,
        points[k],
    ) by {
        assert(beaten(left, points[k]));
        let a = choose|a: int| #[trigger] no_weaker(left, a, points[k]);
        lemma_bands(left[a].frequency, points[k].frequency);
        seqs::lemma_sorted_members(left, le, left[a]);
        assert(left.contains(left[a]));
        let i = choose|i: int| 0 <= i < shown.len() && shown[i] == left[a];
        assert(shown[i].ssid == points[k].ssid);
    }
}

proof fn lemma_left_apart(left: Seq<NetworkAccessPointView>)
    requires
        forall|i: int, j: int|
            0 <= i < j < left.len() ==> !same_network(#[trigger] left[i], #[trigger] left[j]),
    ensures
        left.no_duplicates(),
{
    assert forall|i: int, j: int| 0 <= i < left.len() && 0 <= j < left.len() && i != j implies left[i]
        != left[j] by {
        if i < j {
            assert(!same_network(left[i], left[j]));
        } else {
            assert(!same_network(left[j], left[i]));
        }
    }
}

/// Whether a truth value is what a property says, and false where the property is missing.
pub open spec fn tells_flag(
    properties: Seq<(Seq<char>, WireValue)>,
    name: Seq<char>,
    flag: bool,
) -> bool {
    &&& wire::property(properties, name) matches Some(v) ==> (v matches WireValue::Bool(b) ==> flag
        == b)
    &&& wire::property(properties, name) is None ==> !flag
}

/// Whether a text is what a property says, and empty where the property is missing.
pub open spec fn tells_text(
    properties: Seq<(Seq<char>, WireValue)>,
    name: Seq<char>,
    text: Seq<char>,
) -> bool {
    &&& wire::property(properties, name) matches Some(v) ==> (v matches WireValue::Str(s) ==> text
        == s@)
    &&& wire::property(properties, name) is None ==> text.len() == 0
}

/// Whether an object of the Bluetooth service is a device, as it is shown.
pub open spec fn is_device(object: BluezObject, shown: BluetoothDeviceView) -> bool {
    object.device matches Some(p) && {
        let properties = wire::named(p@);
        &&& shown.path == object.path@
        &&& tells_text(properties, "Address"@, shown.address)
        &&& tells_text(properties, "Name"@, shown.name)
        &&& wire::property(properties, "Alias"@) matches Some(v) ==> (v matches WireValue::Str(s)
            ==> s@.len() > 0 ==> shown.alias == s@)
        &&& wire::property(properties, "Alias"@) is None ==> shown.alias == shown.name
        &&& shown.alias.len() == 0 ==> shown.name.len() == 0
        &&& tells_flag(properties, "Paired"@, shown.paired)
        &&& tells_flag(properties, "Trusted"@, shown.trusted)
        &&& tells_flag(properties, "Connected"@, shown.connected)
    }
}

/// Whether an object says that a device of its is connected, or is paired.
pub open spec fn says_known(object: BluezObject) -> bool {
    object.device matches Some(p) && (wire::property(wire::named(p@), "Connected"@) == Some(
        WireValue::Bool(true),
    ) || wire::property(wire::named(p@), "Paired"@) == Some(WireValue::Bool(true)))
}

/// Whether a device that is shown is one of the objects.
pub open spec fn has_object(objects: Seq<BluezObject>, shown: BluetoothDeviceView) -> bool {
    exists|k: int| 0 <= k < objects.len() && is_device(#[trigger] objects[k], shown)
}

/// Whether an object is one of the devices that are shown.
pub open spec fn is_shown(shown: Seq<BluetoothDeviceView>, object: BluezObject) -> bool {
    exists|i: int| 0 <= i < shown.len() && is_device(object, #[trigger] shown[i])
}

proof fn lemma_device_of(object: BluezObject)
    requires
        object.device is Some,
    ensures
        is_device(object, device_of(object.path@, wire::named(object.device->0@))),
        says_known(object) ==> {
            let d = device_of(object.path@, wire::named(object.device->0@));
            d.connected || d.paired
        },
{
}

proof fn lemma_devices_have_objects(objects: Seq<BluezObject>)
    ensures
        forall|i: int|
            0 <= i < devices_of(objects).len() ==> has_object(
                objects,
                #[trigger] devices_of(objects)[i],
            ),
    decreases objects.len(),
{
    if objects.len() > 0 {
        let before = objects.drop_last();
        let last = objects.len() - 1;
        lemma_devices_have_objects(before);
        let now = devices_of(objects);
        let earlier = devices_of(before);
        assert forall|i: int| 0 <= i < now.len() implies has_object(objects, #[trigger] now[i]) by {
            if i < earlier.len() {
                assert(now[i] == earlier[i]);
                assert(has_object(before, earlier[i]));
                let k = choose|k: int|
                    0 <= k < before.len() && is_device(#[trigger] before[k], earlier[i]);
                assert(objects[k] == before[k]);
            } else {
                lemma_device_of(objects[last]);
                assert(is_device(objects[last], now[i]));
            }
        }
    }
}

proof fn lemma_object_has_device(objects: Seq<BluezObject>, k: int)
    requires
        0 <= k < objects.len(),
        objects[k].device is Some,
    ensures
        devices_of(objects).contains(
            device_of(objects[k].path@, wire::named(objects[k].device->0@)),
        ),
    decreases objects.len(),
{
    let before = objects.drop_last();
    let d = device_of(objects[k].path@, wire::named(objects[k].device->0@));
    let now = devices_of(objects);
    let earlier = devices_of(before);
    if k < before.len() {
        assert(before[k] == objects[k]);
        lemma_object_has_device(before, k);
        let i = choose|i: int| 0 <= i < earlier.len() && earlier[i] == d;
        assert(now[i] == d);
    } else {
        assert(now[earlier.len() as int] == d);
    }
}

/// The Bluetooth devices are shown in the order of their paths.
pub proof fn lemma_devices_are_ordered(objects: Seq<BluezObject>)
    ensures
        forall|i: int, j: int|
            0 <= i < j < bluetooth_of(objects).devices.len() ==> text::text_le(
                (#[trigger] bluetooth_of(objects).devices[i]).path,
                (#[trigger] bluetooth_of(objects).devices[j]).path,
            ),
{
    let p = |d: BluetoothDeviceView| d.connected || d.paired;
    let le = |a: BluetoothDeviceView, b: BluetoothDeviceView| text::text_le(a.path, b.path);
    let kept = devices_of(objects).filter(p);
    let shown = bluetooth_of(objects).devices;
    assert(seqs::is_total_order(le)) by {
        assert forall|a: BluetoothDeviceView, b: BluetoothDeviceView| #[trigger] le(a, b) || le(b, a) by {
            text::lemma_text_le_total(a.path, b.path);
        }
        assert forall|a: BluetoothDeviceView, b: BluetoothDeviceView, c: BluetoothDeviceView|
            #[trigger] le(a, b) && #[trigger] le(b, c) implies le(a, c) by {
            text::lemma_text_le_transitive(a.path, b.path, c.path);
        }
    }
    seqs::lemma_sorted_ordered(kept, le);
    assert forall|i: int, j: int| 0 <= i < j < shown.len() implies text::text_le(
        (#[trigger] shown[i]).path,
        (#[trigger] shown[j]).path,
    ) by {
        assert(le(shown[i], shown[j]));
    }
}

/// Of the Bluetooth devices those are shown that are connected or paired, and no others, as their
/// objects describe them.
pub proof fn lemma_known_devices_are_shown(objects: Seq<BluezObject>)
    ensures
        ({
            let shown = bluetooth_of(objects).devices;
            &&& forall|i: int|
                0 <= i < shown.len() ==> (#[trigger] shown[i]).connected || shown[i].paired
            &&& forall|i: int| 0 <= i < shown.len() ==> has_object(objects, #[trigger] shown[i])
            &&& forall|k: int|
                0 <= k < objects.len() && says_known(#[trigger] objects[k]) ==> is_shown(
                    shown,
                    objects[k],
                )
        }),
{
    let all = devices_of(objects);
    let p = |d: BluetoothDeviceView| d.connected || d.paired;
    let le = |a: BluetoothDeviceView, b: BluetoothDeviceView| text::text_le(a.path, b.path);
    let kept = all.filter(p);
    let shown = bluetooth_of(objects).devices;
    lemma_devices_have_objects(objects);
    assert forall|i: int| 0 <= i < shown.len() implies ((#[trigger] shown[i]).connected
        || shown[i].paired) && has_object(objects, shown[i]) by {
        assert(shown.contains(shown[i]));
        seqs::lemma_sorted_members(kept, le, shown[i]);
        seqs::lemma_filter_members(all, p, shown[i]);
        let a = choose|a: int| 0 <= a < all.len() && all[a] == shown[i];
        assert(has_object(objects, all[a]));
    }
    assert forall|k: int| 0 <= k < objects.len() && says_known(#[trigger] objects[k]) implies is_shown(
        shown,
        objects[k],
    ) by {
        let d = device_of(objects[k].path@, wire::named(objects[k].device->0@));
        lemma_device_of(objects[k]);
        lemma_object_has_device(objects, k);
        seqs::lemma_filter_members(all, p, d);
        seqs::lemma_sorted_members(kept, le, d);
        let i = choose|i: int| 0 <= i < shown.len() && shown[i] == d;
        assert(is_device(objects[k], shown[i]));
    }
}

/// Whether an object is an adapter that says of itself whether it has power.
pub open spec fn says_powered(object: BluezObject, powered: bool) -> bool {
    object.adapter matches Some(p) && wire::property(wire::named(p@), "Powered"@) == Some(
        WireValue::Bool(powered),
    )
}

/// Bluetooth is there with the first adapter, and is on as long as one of the adapters has power.
pub proof fn lemma_adapters_tell(objects: Seq<BluezObject>, at: int)
    requires
        0 <= at < objects.len(),
    ensures
        objects[at].adapter is Some ==> bluetooth_of(objects).available,
        says_powered(objects[at], true) ==> bluetooth_of(objects).powered,
        (forall|i: int| 0 <= i < objects.len() ==> (#[trigger] objects[i]).adapter is None)
            ==> !bluetooth_of(objects).available && !bluetooth_of(objects).powered,
        (forall|i: int|
            0 <= i < objects.len() ==> (#[trigger] objects[i]).adapter is None || says_powered(
                objects[i],
                false,
            )) ==> !bluetooth_of(objects).powered,
{
    if objects[at].adapter is Some {
        assert(is_adapter(objects[at]));
    }
    if says_powered(objects[at], true) {
        assert(is_powered(objects[at]));
    }
}

} // verus!
