//! The network collector's merge: address records and I/O counter records,
//! both keyed by interface name, are folded into one record per interface
//! and the result is sorted case-insensitively by name.
//!
//! Within one collection pass, a later address of the same family for the
//! same interface overwrites an earlier one; counters for an interface that
//! never appeared in the address phase are dropped; an interface without
//! counters reports zeros; address fields never filled stay empty.

use vstd::prelude::*;
use crate::system_info::Net;
use crate::text::{ci_le, name_le, lemma_ci_le_total, lemma_ci_le_trans};
use crate::text::{upper_of, lemma_ci_le_antisymmetric};

verus! {

/// One address an interface enumeration yielded for an interface, classified
/// by family. Addresses of families the collector does not track fall under
/// `Other` and leave the record unchanged.
pub enum Address {
    V4(String),
    V6(String),
    Mac(String),
    Other,
}

/// One entry of the address-enumeration phase.
pub struct AddrRecord {
    pub name: String,
    pub address: Address,
}

/// One entry of the counter-enumeration phase. An entry that could not be
/// read is handed in as `None` and skipped.
pub struct IoCounters {
    pub interface: String,
    pub bytes_sent: u64,
    pub bytes_recv: u64,
    pub packets_sent: u64,
    pub packets_recv: u64,
}

/// Whether some address record carries this interface name.
pub open spec fn seen(addrs: Seq<AddrRecord>, name: Seq<char>) -> bool {
    exists|i: int| 0 <= i < addrs.len() && addrs[i].name@ == name
}

/// The last IPv4 address recorded for `name`, or empty if none.
pub open spec fn last_ip(addrs: Seq<AddrRecord>, name: Seq<char>) -> Seq<char>
    decreases addrs.len(),
{
    if addrs.len() == 0 {
        Seq::<char>::empty()
    } else if addrs.last().name@ == name && addrs.last().address is V4 {
        addrs.last().address->V4_0@
    } else {
        last_ip(addrs.drop_last(), name)
    }
}

/// The last IPv6 address recorded for `name`, or empty if none.
pub open spec fn last_ip6(addrs: Seq<AddrRecord>, name: Seq<char>) -> Seq<char>
    decreases addrs.len(),
{
    if addrs.len() == 0 {
        Seq::<char>::empty()
    } else if addrs.last().name@ == name && addrs.last().address is V6 {
        addrs.last().address->V6_0@
    } else {
        last_ip6(addrs.drop_last(), name)
    }
}

/// The last link-layer address recorded for `name`, or empty if none.
pub open spec fn last_mac(addrs: Seq<AddrRecord>, name: Seq<char>) -> Seq<char>
    decreases addrs.len(),
{
    if addrs.len() == 0 {
        Seq::<char>::empty()
    } else if addrs.last().name@ == name && addrs.last().address is Mac {
        addrs.last().address->Mac_0@
    } else {
        last_mac(addrs.drop_last(), name)
    }
}

/// The last readable counter entry recorded for `name`, if any.
pub open spec fn last_counters(cs: Seq<Option<IoCounters>>, name: Seq<char>) -> Option<IoCounters>
    decreases cs.len(),
{
    if cs.len() == 0 {
        None
    } else if cs.last() matches Some(c) && c.interface@ == name {
        cs.last()
    } else {
        last_counters(cs.drop_last(), name)
    }
}

/// The four counters owed to `name`: the last readable entry's values, or
/// zeros if no entry carries that name.
pub open spec fn counters_for(cs: Seq<Option<IoCounters>>, name: Seq<char>) -> (u64, u64, u64, u64) {
    match last_counters(cs, name) {
        Some(c) => (c.bytes_sent, c.bytes_recv, c.packets_sent, c.packets_recv),
        None => (0u64, 0u64, 0u64, 0u64),
    }
}

/// The address fields of `e` are exactly the last-write-wins values that the
/// address phase recorded for its name.
pub open spec fn addr_fields_ok(addrs: Seq<AddrRecord>, e: Net) -> bool {
    &&& e.ip@ == last_ip(addrs, e.name@)
    &&& e.ip_v6@ == last_ip6(addrs, e.name@)
    &&& e.mac@ == last_mac(addrs, e.name@)
}

/// The counter fields of `e` are exactly the values the counter phase owes
/// its name.
pub open spec fn ctr_fields_ok(cs: Seq<Option<IoCounters>>, e: Net) -> bool {
    (e.bytes_sent, e.bytes_recv, e.packets_sent, e.packets_recv) == counters_for(cs, e.name@)
}

/// Full per-entry correctness of one merged record.
pub open spec fn net_entry_ok(
    addrs: Seq<AddrRecord>,
    cs: Seq<Option<IoCounters>>,
    e: Net,
) -> bool {
    &&& seen(addrs, e.name@)
    &&& addr_fields_ok(addrs, e)
    &&& ctr_fields_ok(cs, e)
}

/// The list is sorted ascending by case-insensitive name.
pub open spec fn sorted_by_name_ci(s: Seq<Net>) -> bool {
    forall|i: int, j: int|
        0 <= i < j < s.len() ==> ci_le(#[trigger] s[i].name@, #[trigger] s[j].name@)
}

/// No two entries carry the same name.
pub open spec fn names_distinct(s: Seq<Net>) -> bool {
    forall|i: int, j: int|
        0 <= i < j < s.len() ==> (#[trigger] s[i].name@) != (#[trigger] s[j].name@)
}

/// Some entry of the list carries this name.
pub open spec fn has_name(s: Seq<Net>, name: Seq<char>) -> bool {
    exists|k: int| 0 <= k < s.len() && s[k].name@ == name
}

/// Whether some readable counter entry carries this interface name.
pub open spec fn counter_seen(cs: Seq<Option<IoCounters>>, name: Seq<char>) -> bool {
    exists|i: int|
        #![trigger cs[i]]
        0 <= i < cs.len() && (cs[i] matches Some(c) && c.interface@ == name)
}

/// An interface no readable counter entry names is owed zero counters.
pub proof fn lemma_absent_counters_zero(cs: Seq<Option<IoCounters>>, name: Seq<char>)
    requires
        !counter_seen(cs, name),
    ensures
        counters_for(cs, name) == (0u64, 0u64, 0u64, 0u64),
    decreases cs.len(),
{
    if cs.len() > 0 {
        assert(!(cs.last() matches Some(c) && c.interface@ == name)) by {
            if cs.last() matches Some(c) && c.interface@ == name {
                assert(0 <= cs.len() - 1 < cs.len() && (cs[cs.len() - 1] matches Some(c2)
                    && c2.interface@ == name));
            }
        }
        assert(!counter_seen(cs.drop_last(), name)) by {
            if counter_seen(cs.drop_last(), name) {
                let i = choose|i: int|
                    #![trigger cs.drop_last()[i]]
                    0 <= i < cs.drop_last().len() && (cs.drop_last()[i] matches Some(c)
                        && c.interface@ == name);
                assert(cs.drop_last()[i] == cs[i]);
                assert(counter_seen(cs, name));
            }
        }
        lemma_absent_counters_zero(cs.drop_last(), name);
    }
}

/// An interface of the address phase that no counter entry names is emitted
/// with all four counters zero: this holds of every entry of a list whose
/// entries are correct merges.
pub proof fn lemma_no_counters_emitted_zero(
    addrs: Seq<AddrRecord>,
    cs: Seq<Option<IoCounters>>,
    r: Seq<Net>,
    k: int,
)
    requires
        forall|i: int| 0 <= i < r.len() ==> net_entry_ok(addrs, cs, #[trigger] r[i]),
        0 <= k < r.len(),
        !counter_seen(cs, r[k].name@),
    ensures
        r[k].bytes_sent == 0,
        r[k].bytes_recv == 0,
        r[k].packets_sent == 0,
        r[k].packets_recv == 0,
{
    lemma_absent_counters_zero(cs, r[k].name@);
}

/// An interface named only by counter entries and never by an address record
/// is excluded from any list whose entries are correct merges.
pub proof fn lemma_counters_only_excluded(
    addrs: Seq<AddrRecord>,
    cs: Seq<Option<IoCounters>>,
    r: Seq<Net>,
    name: Seq<char>,
)
    requires
        forall|i: int| 0 <= i < r.len() ==> net_entry_ok(addrs, cs, #[trigger] r[i]),
        !seen(addrs, name),
    ensures
        !has_name(r, name),
{
    if has_name(r, name) {
        let k = choose|k: int| 0 <= k < r.len() && r[k].name@ == name;
        assert(net_entry_ok(addrs, cs, r[k]));
    }
}

/// The sort order is total, and on a sorted list whose names have pairwise
/// distinct uppercase forms it tells every pair apart: no later entry
/// compares at most an earlier one.
pub proof fn lemma_sorted_strictly(s: Seq<Net>)
    requires
        sorted_by_name_ci(s),
        forall|i: int, j: int|
            0 <= i < j < s.len() ==> upper_of(#[trigger] s[i].name@) != upper_of(
                #[trigger] s[j].name@),
    ensures
        forall|i: int, j: int|
            0 <= i < j < s.len() ==> !ci_le(#[trigger] s[j].name@, #[trigger] s[i].name@),
{
    assert forall|i: int, j: int| 0 <= i < j < s.len() implies !ci_le(
        #[trigger] s[j].name@,
        #[trigger] s[i].name@,
    ) by {
        if ci_le(s[j].name@, s[i].name@) {
            assert(ci_le(s[i].name@, s[j].name@));
            lemma_ci_le_antisymmetric(s[i].name@, s[j].name@);
        }
    }
}

/// Appending one address record changes each last-written address only for
/// that record's name and family.
proof fn lemma_addr_push(addrs: Seq<AddrRecord>, rec: AddrRecord, name: Seq<char>)
    ensures
        last_ip(addrs.push(rec), name) == (if rec.name@ == name && rec.address is V4 {
            rec.address->V4_0@
        } else {
            last_ip(addrs, name)
        }),
        last_ip6(addrs.push(rec), name) == (if rec.name@ == name && rec.address is V6 {
            rec.address->V6_0@
        } else {
            last_ip6(addrs, name)
        }),
        last_mac(addrs.push(rec), name) == (if rec.name@ == name && rec.address is Mac {
            rec.address->Mac_0@
        } else {
            last_mac(addrs, name)
        }),
{
    assert(addrs.push(rec).drop_last() =~= addrs);
    assert(addrs.push(rec).last() == rec);
}

/// Appending one address record extends the set of seen names by exactly
/// that record's name.
proof fn lemma_seen_push(addrs: Seq<AddrRecord>, rec: AddrRecord, name: Seq<char>)
    ensures
        seen(addrs.push(rec), name) <==> (seen(addrs, name) || rec.name@ == name),
{
    let s = addrs.push(rec);
    if seen(addrs, name) {
        let i = choose|i: int| 0 <= i < addrs.len() && addrs[i].name@ == name;
        assert(s[i] == addrs[i]);
        assert(seen(s, name));
    }
    if rec.name@ == name {
        assert(s[addrs.len() as int] == rec);
        assert(seen(s, name));
    }
    if seen(s, name) {
        let i = choose|i: int| 0 <= i < s.len() && s[i].name@ == name;
        if i < addrs.len() {
            assert(addrs[i] == s[i]);
            assert(seen(addrs, name));
        } else {
            assert(s[i] == rec);
        }
    }
}

/// A name no address record carries has all its last-written addresses empty.
proof fn lemma_unseen_last(addrs: Seq<AddrRecord>, name: Seq<char>)
    requires
        !seen(addrs, name),
    ensures
        last_ip(addrs, name) == Seq::<char>::empty(),
        last_ip6(addrs, name) == Seq::<char>::empty(),
        last_mac(addrs, name) == Seq::<char>::empty(),
    decreases addrs.len(),
{
    if addrs.len() > 0 {
        assert(addrs.last().name@ != name) by {
            if addrs.last().name@ == name {
                assert(0 <= addrs.len() - 1 < addrs.len()
                    && addrs[addrs.len() - 1].name@ == name);
            }
        }
        assert(!seen(addrs.drop_last(), name)) by {
            if seen(addrs.drop_last(), name) {
                let i = choose|i: int|
                    0 <= i < addrs.drop_last().len() && addrs.drop_last()[i].name@ == name;
                assert(addrs.drop_last()[i] == addrs[i]);
                assert(seen(addrs, name));
            }
        }
        lemma_unseen_last(addrs.drop_last(), name);
    }
}

/// Appending one counter entry changes the owed counters only for that
/// entry's interface name, and only when the entry was readable.
proof fn lemma_counters_push(cs: Seq<Option<IoCounters>>, item: Option<IoCounters>, name: Seq<char>)
    ensures
        last_counters(cs.push(item), name) == (if item matches Some(c) && c.interface@ == name {
            item
        } else {
            last_counters(cs, name)
        }),
{
    assert(cs.push(item).drop_last() =~= cs);
    assert(cs.push(item).last() == item);
}

/// Finds the position of an interface name in the working list.
fn find_name(wl: &Vec<Net>, name: &String) -> (r: Option<usize>)
    ensures
        match r {
            Some(j) => j < wl@.len() && wl@[j as int].name@ == name@,
            None => forall|k: int| 0 <= k < wl@.len() ==> (#[trigger] wl@[k].name@) != name@,
        },
{
    let mut j: usize = 0;
    while j < wl.len()
        invariant
            j <= wl@.len(),
            forall|k: int| 0 <= k < j ==> (#[trigger] wl@[k].name@) != name@,
        decreases wl@.len() - j,
    {
        if wl[j].name.eq(name) {
            return Some(j);
        }
        j = j + 1;
    }
    None
}

/// Inserts a record into a list sorted case-insensitively by name, keeping
/// it sorted; returns the insertion position.
fn insert_sorted(out: &mut Vec<Net>, x: Net) -> (jj: usize)
    requires
        sorted_by_name_ci(old(out)@),
    ensures
        jj <= old(out)@.len(),
        final(out)@ == old(out)@.insert(jj as int, x),
        sorted_by_name_ci(final(out)@),
{
    let mut j: usize = 0;
    loop
        invariant
            j <= out@.len(),
            out@ == old(out)@,
            sorted_by_name_ci(out@),
            forall|k: int| 0 <= k < j ==> ci_le(#[trigger] out@[k].name@, x.name@),
        ensures
            j <= out@.len(),
            out@ == old(out)@,
            forall|k: int| 0 <= k < j ==> ci_le(#[trigger] out@[k].name@, x.name@),
            forall|k: int| j <= k < out@.len() ==> ci_le(x.name@, #[trigger] out@[k].name@),
        decreases out@.len() - j,
    {
        if j >= out.len() {
            break;
        }
        if !name_le(out[j].name.as_str(), x.name.as_str()) {
            proof {
                lemma_ci_le_total(out@[j as int].name@, x.name@);
                assert forall|k: int| j <= k < out@.len() implies ci_le(
                    x.name@,
                    #[trigger] out@[k].name@,
                ) by {
                    if j < k {
                        assert(ci_le(out@[j as int].name@, out@[k].name@));
                        lemma_ci_le_trans(x.name@, out@[j as int].name@, out@[k].name@);
                    }
                }
            }
            break;
        }
        j = j + 1;
    }
    let ghost base = out@;
    out.insert(j, x);
    proof {
        base.insert_ensures(j as int, x);
        assert forall|p: int, q: int| 0 <= p < q < out@.len() implies ci_le(
            #[trigger] out@[p].name@,
            #[trigger] out@[q].name@,
        ) by {
            if q < j {
                assert(out@[p] == base[p] && out@[q] == base[q]);
            } else if q == j {
                assert(out@[p] == base[p]);
                assert(out@[q] == x);
            } else {
                assert(out@[q] == base[q - 1]);
                if p < j {
                    assert(out@[p] == base[p]);
                    if p == q - 1 {
                        assert(ci_le(x.name@, base[p].name@));
                        assert(false);
                    } else {
                        assert(ci_le(base[p].name@, base[q - 1].name@));
                    }
                } else if p == j {
                    assert(out@[p] == x);
                    assert(ci_le(x.name@, base[q - 1].name@));
                } else {
                    assert(out@[p] == base[p - 1]);
                    assert(ci_le(base[p - 1].name@, base[q - 1].name@));
                }
            }
        }
    }
    j
}

/// Merges the two enumeration phases into the final interface list.
///
/// Every interface of the address phase appears exactly once, carrying the
/// last address recorded per family (empty when none), and the counters of
/// its last readable counter entry (zeros when none). Interfaces appearing
/// only among the counters are excluded. The list is sorted ascending by
/// case-insensitive name, and names are pairwise distinct.
pub fn collect_network(addrs: Vec<AddrRecord>, counters: Vec<Option<IoCounters>>) -> (r: Vec<Net>)
    ensures
        sorted_by_name_ci(r@),
        names_distinct(r@),
        forall|k: int| 0 <= k < r@.len() ==> net_entry_ok(addrs@, counters@, #[trigger] r@[k]),
        forall|i: int|
            0 <= i < addrs@.len() ==> has_name(r@, #[trigger] addrs@[i].name@),
{
    let ghost a_all = addrs@;
    let ghost c_all = counters@;

    // Address phase: one working record per interface name, fields
    // overwritten last-write-wins per family.
    let mut wl: Vec<Net> = Vec::new();
    let mut idx: usize = 0;
    while idx < addrs.len()
        invariant
            idx <= a_all.len(),
            addrs@ == a_all,
            names_distinct(wl@),
            forall|k: int|
                0 <= k < wl@.len() ==> seen(a_all.take(idx as int), #[trigger] wl@[k].name@),
            forall|i: int|
                0 <= i < idx ==> has_name(wl@, #[trigger] a_all[i].name@),
            forall|k: int|
                0 <= k < wl@.len() ==> addr_fields_ok(a_all.take(idx as int), #[trigger] wl@[k]),
            forall|k: int|
                0 <= k < wl@.len() ==> {
                    let e = #[trigger] wl@[k];
                    e.bytes_sent == 0 && e.bytes_recv == 0 && e.packets_sent == 0
                        && e.packets_recv == 0
                },
        decreases a_all.len() - idx,
    {
        let ghost prefix = a_all.take(idx as int);
        let ghost rec = a_all[idx as int];
        let ghost wl0 = wl@;
        let found = find_name(&wl, &addrs[idx].name);
        match found {
            Some(j) => {
                let mut e = wl.remove(j);
                match &addrs[idx].address {
                    Address::V4(s) => { e.ip = s.clone(); }
                    Address::V6(s) => { e.ip_v6 = s.clone(); }
                    Address::Mac(s) => { e.mac = s.clone(); }
                    Address::Other => {}
                }
                wl.insert(j, e);
                proof {
                    wl0.remove_ensures(j as int);
                    wl0.remove(j as int).insert_ensures(j as int, e);
                    assert(wl@ =~= wl0.update(j as int, e));
                }
            }
            None => {
                let mut e = Net {
                    name: addrs[idx].name.clone(),
                    ip: String::new(),
                    ip_v6: String::new(),
                    mac: String::new(),
                    bytes_sent: 0,
                    bytes_recv: 0,
                    packets_sent: 0,
                    packets_recv: 0,
                };
                match &addrs[idx].address {
                    Address::V4(s) => { e.ip = s.clone(); }
                    Address::V6(s) => { e.ip_v6 = s.clone(); }
                    Address::Mac(s) => { e.mac = s.clone(); }
                    Address::Other => {}
                }
                proof {
                    // The fresh name is absent from the working list, so by
                    // the completeness invariant it is unseen in the prefix.
                    assert(!seen(prefix, rec.name@)) by {
                        if seen(prefix, rec.name@) {
                            let i = choose|i: int|
                                0 <= i < prefix.len() && prefix[i].name@ == rec.name@;
                            assert(prefix[i] == a_all[i]);
                            assert(has_name(wl0, a_all[i].name@));
                        }
                    }
                    lemma_unseen_last(prefix, rec.name@);
                }
                wl.push(e);
            }
        }
        proof {
            assert(a_all.take(idx + 1 as int) =~= prefix.push(rec));
            assert forall|k: int| 0 <= k < wl@.len() implies addr_fields_ok(
                a_all.take(idx + 1 as int),
                #[trigger] wl@[k],
            ) by {
                lemma_addr_push(prefix, rec, wl@[k].name@);
            }
            assert forall|k: int| 0 <= k < wl@.len() implies seen(
                a_all.take(idx + 1 as int),
                #[trigger] wl@[k].name@,
            ) by {
                lemma_seen_push(prefix, rec, wl@[k].name@);
            }
            assert forall|i: int| 0 <= i < idx + 1 implies has_name(
                wl@,
                #[trigger] a_all[i].name@,
            ) by {
                if i < idx {
                    let k = choose|k: int| 0 <= k < wl0.len() && wl0[k].name@ == a_all[i].name@;
                    if found is Some {
                        assert(wl@[k].name@ == wl0[k].name@);
                    } else {
                        assert(wl@[k] == wl0[k]);
                    }
                    assert(has_name(wl@, a_all[i].name@));
                } else {
                    match found {
                        Some(j) => {
                            assert(wl@[j as int].name@ == a_all[i].name@);
                        }
                        None => {
                            assert(wl@[wl@.len() - 1].name@ == a_all[i].name@);
                        }
                    }
                }
            }
        }
        idx = idx + 1;
    }
    proof {
        assert(a_all.take(a_all.len() as int) =~= a_all);
    }

    // Counter phase: merge each readable counter entry into the record of
    // its interface, skipping entries whose interface was never seen.
    let mut ci: usize = 0;
    while ci < counters.len()
        invariant
            ci <= c_all.len(),
            counters@ == c_all,
            addrs@ == a_all,
            names_distinct(wl@),
            forall|k: int| 0 <= k < wl@.len() ==> seen(a_all, #[trigger] wl@[k].name@),
            forall|i: int|
                0 <= i < a_all.len() ==> has_name(wl@, #[trigger] a_all[i].name@),
            forall|k: int| 0 <= k < wl@.len() ==> addr_fields_ok(a_all, #[trigger] wl@[k]),
            forall|k: int|
                0 <= k < wl@.len() ==> ctr_fields_ok(c_all.take(ci as int), #[trigger] wl@[k]),
        decreases c_all.len() - ci,
    {
        let ghost cprefix = c_all.take(ci as int);
        let ghost item = c_all[ci as int];
        let ghost wl0 = wl@;
        match &counters[ci] {
            Some(c) => {
                let found = find_name(&wl, &c.interface);
                match found {
                    Some(j) => {
                        let mut e = wl.remove(j);
                        e.bytes_sent = c.bytes_sent;
                        e.bytes_recv = c.bytes_recv;
                        e.packets_sent = c.packets_sent;
                        e.packets_recv = c.packets_recv;
                        wl.insert(j, e);
                        proof {
                            wl0.remove_ensures(j as int);
                            wl0.remove(j as int).insert_ensures(j as int, e);
                            assert(wl@ =~= wl0.update(j as int, e));
                        }
                    }
                    None => {}
                }
            }
            None => {}
        }
        proof {
            assert(c_all.take(ci + 1 as int) =~= cprefix.push(item));
            assert forall|k: int| 0 <= k < wl@.len() implies ctr_fields_ok(
                c_all.take(ci + 1 as int),
                #[trigger] wl@[k],
            ) by {
                lemma_counters_push(cprefix, item, wl@[k].name@);
            }
            assert forall|i: int| 0 <= i < a_all.len() implies has_name(
                wl@,
                #[trigger] a_all[i].name@,
            ) by {
                let k = choose|k: int| 0 <= k < wl0.len() && wl0[k].name@ == a_all[i].name@;
                assert(wl@[k].name@ == wl0[k].name@);
            }
        }
        ci = ci + 1;
    }
    proof {
        assert(c_all.take(c_all.len() as int) =~= c_all);
    }

    // Sort phase: move every record into its sorted position.
    let mut out: Vec<Net> = Vec::new();
    while wl.len() > 0
        invariant
            addrs@ == a_all,
            counters@ == c_all,
            sorted_by_name_ci(out@),
            names_distinct(out@),
            names_distinct(wl@),
            forall|k: int, l: int|
                0 <= k < out@.len() && 0 <= l < wl@.len() ==> (#[trigger] out@[k].name@) != (
                #[trigger] wl@[l].name@),
            forall|k: int| 0 <= k < wl@.len() ==> net_entry_ok(a_all, c_all, #[trigger] wl@[k]),
            forall|k: int| 0 <= k < out@.len() ==> net_entry_ok(a_all, c_all, #[trigger] out@[k]),
            forall|i: int|
                0 <= i < a_all.len() ==> has_name(wl@, #[trigger] a_all[i].name@) || has_name(
                    out@,
                    a_all[i].name@,
                ),
        decreases wl@.len(),
    {
        let ghost wl0 = wl@;
        let ghost out0 = out@;
        let x = match wl.pop() {
            Some(x) => x,
            None => { proof { assert(false); } unreached() }
        };
        let jj = insert_sorted(&mut out, x);
        proof {
            out0.insert_ensures(jj as int, x);
            assert forall|i: int| 0 <= i < a_all.len() implies has_name(
                wl@,
                #[trigger] a_all[i].name@,
            ) || has_name(out@, a_all[i].name@) by {
                if has_name(wl0, a_all[i].name@) {
                    let k = choose|k: int| 0 <= k < wl0.len() && wl0[k].name@ == a_all[i].name@;
                    if k < wl0.len() - 1 {
                        assert(wl@[k] == wl0[k]);
                        assert(has_name(wl@, a_all[i].name@));
                    } else {
                        assert(out@[jj as int] == x);
                        assert(has_name(out@, a_all[i].name@));
                    }
                } else {
                    let k = choose|k: int| 0 <= k < out0.len() && out0[k].name@ == a_all[i].name@;
                    if k < jj {
                        assert(out@[k] == out0[k]);
                    } else {
                        assert(out@[k + 1] == out0[k]);
                    }
                    assert(has_name(out@, a_all[i].name@));
                }
            }
            assert forall|k: int| 0 <= k < out@.len() implies net_entry_ok(
                a_all,
                c_all,
                #[trigger] out@[k],
            ) by {
                if k < jj {
                    assert(out@[k] == out0[k]);
                } else if k == jj {
                    assert(out@[k] == x);
                } else {
                    assert(out@[k] == out0[k - 1]);
                }
            }
            assert forall|p: int, q: int| 0 <= p < q < out@.len() implies (
            #[trigger] out@[p].name@) != (#[trigger] out@[q].name@) by {
                let pv = if p < jj { out0[p] } else if p == jj { x } else { out0[p - 1] };
                let qv = if q < jj { out0[q] } else if q == jj { x } else { out0[q - 1] };
                assert(out@[p] == pv);
                assert(out@[q] == qv);
            }
            assert forall|k: int, l: int|
                0 <= k < out@.len() && 0 <= l < wl@.len() implies (#[trigger] out@[k].name@) != (
            #[trigger] wl@[l].name@) by {
                assert(wl@[l] == wl0[l]);
                if k < jj {
                    assert(out@[k] == out0[k]);
                } else if k == jj {
                    assert(out@[k] == x);
                    assert(x == wl0[wl0.len() - 1]);
                } else {
                    assert(out@[k] == out0[k - 1]);
                }
            }
        }
    }
    out
}

} // verus!
