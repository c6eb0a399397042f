//! What holds of the store over several calls.

use crate::clock::Timestamp;
use crate::model::{
    insert_ascending, lemma_insert_ascending, strictly_ascending, LogEntryView, UniverseView,
};
use crate::net::{valid_priority, valid_universe, IpAddress};
use crate::state::{device_at, device_index, keep_last, AppStateView, MAX_LOG_ENTRIES};
use vstd::prelude::*;

verus! {

/// In a store where no source stands twice, the place of a source is the
/// one place where its address stands.
pub proof fn lemma_device_index(s: AppStateView, ip: IpAddress, i: int)
    requires
        s.wf(),
        device_at(s.devices, ip, i),
    ensures
        device_index(s.devices, ip) == Some(i),
{
    let c = choose|c: int| device_at(s.devices, ip, c);
    assert(device_at(s.devices, ip, c));
    if c < i {
        assert(s.devices[c].ip != s.devices[i].ip);
    } else if c > i {
        assert(s.devices[i].ip != s.devices[c].ip);
    }
}

/// A packet of a source leaves the store well formed, with that source in
/// it: at the place it had, or at the end if it is new. Its universes are
/// those it had and the packet's; every other source is as it was.
pub proof fn lemma_update_device(
    s: AppStateView,
    ip: IpAddress,
    universe: u16,
    source_name: Seq<char>,
    priority: u8,
    now: Timestamp,
)
    requires
        s.wf(),
        valid_universe(universe),
        valid_priority(priority),
    ensures
        ({
            let t = s.update_device(ip, universe, source_name, priority, now);
            let place = match device_index(s.devices, ip) {
                Some(i) => i,
                None => s.devices.len() as int,
            };
            &&& t.wf()
            &&& device_index(t.devices, ip) == Some(place)
            &&& 0 <= place < t.devices.len()
            &&& t.devices.len() == if device_index(s.devices, ip) is Some {
                s.devices.len()
            } else {
                s.devices.len() + 1
            }
            &&& t.devices[place].ip == ip
            &&& t.devices[place].source_name == source_name
            &&& t.devices[place].priority == priority
            &&& t.devices[place].last_seen == now
            &&& t.devices[place].universes.contains(universe)
            &&& strictly_ascending(t.devices[place].universes)
            &&& forall|k: int|
                0 <= k < s.devices.len() && k != place ==> t.devices[k] == s.devices[k]
        }),
{
    let t = s.update_device(ip, universe, source_name, priority, now);
    match device_index(s.devices, ip) {
        Some(i) => {
            assert(device_at(s.devices, ip, i));
            let old_list = s.devices[i].universes;
            lemma_insert_ascending(old_list, universe);
            let new_list = insert_ascending(old_list, universe);
            assert forall|a: int, k: int|
                0 <= a < t.devices.len() && 0 <= k
                    < t.devices[a].universes.len() implies valid_universe(
                #[trigger] t.devices[a].universes[k],
            ) by {
                if a == i {
                    let x = new_list[k];
                    assert(new_list.contains(x));
                    if x != universe {
                        assert(old_list.contains(x));
                        let m = choose|m: int| 0 <= m < old_list.len() && old_list[m] == x;
                        assert(valid_universe(s.devices[i].universes[m]));
                    }
                } else {
                    assert(valid_universe(s.devices[a].universes[k]));
                }
            }
            assert forall|a: int, b: int| 0 <= a < b < t.devices.len() implies (
            #[trigger] t.devices[a]).ip != (#[trigger] t.devices[b]).ip by {
                assert(t.devices[a].ip == s.devices[a].ip);
                assert(t.devices[b].ip == s.devices[b].ip);
            }
            assert forall|a: int| 0 <= a < t.devices.len() implies strictly_ascending(
                (#[trigger] t.devices[a]).universes,
            ) by {
                if a != i {
                    assert(t.devices[a] == s.devices[a]);
                }
            }
            assert(device_at(t.devices, ip, i));
            lemma_device_index(t, ip, i);
        },
        None => {
            let n = s.devices.len() as int;
            assert forall|a: int, b: int| 0 <= a < b < t.devices.len() implies (
            #[trigger] t.devices[a]).ip != (#[trigger] t.devices[b]).ip by {
                if b == n {
                    assert(!device_at(s.devices, ip, a));
                } else {
                    assert(s.devices[a].ip != s.devices[b].ip);
                }
            }
            assert forall|a: int| 0 <= a < t.devices.len() implies strictly_ascending(
                (#[trigger] t.devices[a]).universes,
            ) by {
                if a < n {
                    assert(t.devices[a] == s.devices[a]);
                }
            }
            assert forall|a: int, k: int|
                0 <= a < t.devices.len() && 0 <= k
                    < t.devices[a].universes.len() implies valid_universe(
                #[trigger] t.devices[a].universes[k],
            ) by {
                if a < n {
                    assert(valid_universe(s.devices[a].universes[k]));
                }
            }
            assert(t.devices[n].universes[0] == universe);
            assert(device_at(t.devices, ip, n));
            lemma_device_index(t, ip, n);
        },
    }
}

/// Two packets of one source for one universe leave that universe once
/// among the universes of the source, and these in ascending order: the
/// second packet changes nothing of them.
pub proof fn lemma_update_device_twice(
    s: AppStateView,
    ip: IpAddress,
    universe: u16,
    name1: Seq<char>,
    priority1: u8,
    time1: Timestamp,
    name2: Seq<char>,
    priority2: u8,
    time2: Timestamp,
)
    requires
        s.wf(),
        valid_universe(universe),
        valid_priority(priority1),
        valid_priority(priority2),
    ensures
        ({
            let once = s.update_device(ip, universe, name1, priority1, time1);
            let twice = once.update_device(ip, universe, name2, priority2, time2);
            &&& twice.wf()
            &&& once.device(ip) is Some
            &&& twice.device(ip) is Some
            &&& twice.devices.len() == once.devices.len()
            &&& twice.device(ip)->0.universes == once.device(ip)->0.universes
            &&& strictly_ascending(twice.device(ip)->0.universes)
            &&& twice.device(ip)->0.universes.contains(universe)
            &&& forall|i: int, j: int|
                #![trigger twice.device(ip)->0.universes[i], twice.device(ip)->0.universes[j]]
                0 <= i < twice.device(ip)->0.universes.len() && 0 <= j < twice.device(
                    ip,
                )->0.universes.len() && twice.device(ip)->0.universes[i] == universe
                    && twice.device(ip)->0.universes[j] == universe ==> i == j
        }),
{
    let once = s.update_device(ip, universe, name1, priority1, time1);
    lemma_update_device(s, ip, universe, name1, priority1, time1);
    let twice = once.update_device(ip, universe, name2, priority2, time2);
    lemma_update_device(once, ip, universe, name2, priority2, time2);
    let place = device_index(once.devices, ip)->0;
    let list = once.devices[place].universes;
    lemma_insert_ascending(list, universe);
    assert(insert_ascending(list, universe) == list) by {
        lemma_insert_present(list, universe);
    }
}

/// Putting in a universe that is there already changes nothing.
pub proof fn lemma_insert_present(s: Seq<u16>, u: u16)
    requires
        strictly_ascending(s),
        s.contains(u),
    ensures
        insert_ascending(s, u) == s,
    decreases s.len(),
{
    let k = choose|k: int| 0 <= k < s.len() && s[k] == u;
    if s.last() < u {
        assert(s[k] <= s.last());
    } else if s.last() == u {
    } else {
        let t = s.drop_last();
        assert(t[k] == u);
        assert(t.contains(u));
        lemma_insert_present(t, u);
        assert(t.push(s.last()) =~= s);
    }
}

/// The store after the log lines of `entries`, one call each, in order.
pub open spec fn add_logs(s: AppStateView, entries: Seq<LogEntryView>) -> AppStateView
    decreases entries.len(),
{
    if entries.len() == 0 {
        s
    } else {
        add_logs(s, entries.drop_last()).add_log(entries.last())
    }
}

/// After any number of log lines the log holds the newest thousand of all
/// that it held and was given, oldest first, and nothing else of the store
/// has changed.
pub proof fn lemma_add_logs(s: AppStateView, entries: Seq<LogEntryView>)
    requires
        s.wf(),
    ensures
        add_logs(s, entries).wf(),
        add_logs(s, entries).logs == keep_last(s.logs + entries, MAX_LOG_ENTRIES as nat),
        add_logs(s, entries) == (AppStateView { logs: add_logs(s, entries).logs, ..s }),
    decreases entries.len(),
{
    if entries.len() == 0 {
        assert(s.logs + entries =~= s.logs);
    } else {
        let front = entries.drop_last();
        lemma_add_logs(s, front);
        let mid = add_logs(s, front);
        let all = s.logs + entries;
        assert((s.logs + front).push(entries.last()) =~= all);
        assert(keep_last(mid.logs.push(entries.last()), MAX_LOG_ENTRIES as nat) =~= keep_last(
            all,
            MAX_LOG_ENTRIES as nat,
        ));
    }
}

/// A log that was empty and has been given a thousand lines or more holds
/// exactly the last thousand of them, oldest first.
pub proof fn lemma_log_keeps_newest(entries: Seq<LogEntryView>)
    requires
        entries.len() >= MAX_LOG_ENTRIES,
    ensures
        add_logs(AppStateView::initial(), entries).logs == entries.subrange(
            entries.len() - MAX_LOG_ENTRIES,
            entries.len() as int,
        ),
        add_logs(AppStateView::initial(), entries).logs.len() == MAX_LOG_ENTRIES,
{
    let s = AppStateView::initial();
    lemma_add_logs(s, entries);
    assert(s.logs + entries =~= entries);
    assert(entries.subrange(0, entries.len() as int) =~= entries);
}

/// Of two packets for one universe the second alone is kept: the store is
/// as if the first had never come.
pub proof fn lemma_update_universe_twice(s: AppStateView, first: UniverseView, second: UniverseView)
    requires
        first.universe == second.universe,
    ensures
        s.update_universe(first).update_universe(second) == s.update_universe(second),
        s.update_universe(first).update_universe(second).universes[second.universe] == second,
{
    assert(s.universes.insert(first.universe, first).insert(second.universe, second)
        =~= s.universes.insert(second.universe, second));
}

/// A packet for a valid universe leaves the store well formed, and only
/// the snapshot of that universe changed.
pub proof fn lemma_update_universe(s: AppStateView, data: UniverseView)
    requires
        s.wf(),
        valid_universe(data.universe),
        data.channels.len() == 512,
    ensures
        s.update_universe(data).wf(),
        s.update_universe(data).universes[data.universe] == data,
        forall|u: u16|
            u != data.universe ==> (#[trigger] s.update_universe(data).universes.contains_key(u)
                <==> s.universes.contains_key(u)),
        forall|u: u16|
            u != data.universe && s.universes.contains_key(u) ==> #[trigger] s.update_universe(
                data,
            ).universes[u] == s.universes[u],
{
}

} // verus!
