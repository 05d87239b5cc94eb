//! Reconciles the monitor set against display hot-plug, suspend/resume and
//! work-area events: disconnected monitors are cached with their workspace
//! state, reconnected ones get that state back.

use crate::core_types::Rect;
use crate::monitor;
use crate::monitor::Monitor;
use crate::monitor::Window;
use crate::ops::NativeEnv;
use crate::ops::NativeOp;
use crate::text::spec_join;
use crate::text::spec_split;
use crate::text::views_of;
use crate::text::join_char;
use crate::text::split_char;
use crate::text::trim_prefix;
use vstd::prelude::*;

verus! {

/// A monitor-related event forwarded by the hidden event window.
#[derive(Debug, Clone, Copy, PartialEq, Eq, Structural)]
pub enum MonitorNotification {
    ResolutionScalingChanged,
    WorkAreaChanged,
    DisplayConnectionChange,
    EnteringSuspendedState,
    ResumingFromSuspendedState,
    SessionLocked,
    SessionUnlocked,
}

/// One attached display as the display enumeration reports it, reduced to
/// plain values.
#[derive(Debug)]
pub struct Device {
    pub hmonitor: isize,
    pub device_path: String,
    pub device_name: String,
    pub device_description: String,
    pub serial_number_id: Option<String>,
    pub size: Rect,
    pub work_area_size: Rect,
    pub device_key: String,
}

/// Whether some pair in `s` has the key `k` and the value `m`.
pub open spec fn cache_has(s: Seq<(String, Monitor)>, k: Seq<char>, m: Monitor) -> bool {
    exists|i: int| 0 <= i < s.len() && (#[trigger] s[i]).0@ == k && s[i].1 == m
}

/// Whether some pair in `s` has the key `k`.
pub open spec fn cache_has_key(s: Seq<(String, Monitor)>, k: Seq<char>) -> bool {
    exists|i: int| 0 <= i < s.len() && (#[trigger] s[i]).0@ == k
}

/// Cache keys are pairwise distinct.
pub open spec fn cache_keys_unique(s: Seq<(String, Monitor)>) -> bool {
    forall|i: int, j: int|
        #![trigger s[i].0, s[j].0]
        0 <= i < j < s.len() ==> s[i].0@ != s[j].0@
}

/// The cache of disconnected monitors, keyed by serial number id or device
/// id, holding their workspace state for a later reconnect.
#[derive(Debug)]
pub struct MonitorCache {
    entries: Vec<(String, Monitor)>,
}

impl MonitorCache {
    pub closed spec fn contents(&self) -> Seq<(String, Monitor)> {
        self.entries@
    }

    pub open spec fn wf(&self) -> bool {
        cache_keys_unique(self.contents())
    }

    pub fn new() -> (r: MonitorCache)
        ensures
            r.wf(),
            r.contents().len() == 0,
    {
        MonitorCache { entries: Vec::new() }
    }

    pub fn len(&self) -> (n: usize)
        ensures
            n == self.contents().len(),
    {
        self.entries.len()
    }

    fn find_key(&self, key: &str) -> (r: Option<usize>)
        ensures
            match r {
                Some(i) => 0 <= i < self.contents().len() && self.contents()[i as int].0@ == key@,
                None => !cache_has_key(self.contents(), key@),
            },
    {
        let k = key.to_owned();
        let mut i: usize = 0;
        while i < self.entries.len()
            invariant
                0 <= i <= self.entries@.len(),
                k@ == key@,
                forall|j: int| 0 <= j < i ==> (#[trigger] self.entries@[j]).0@ != key@,
            decreases self.entries@.len() - i,
        {
            if self.entries[i].0 == k {
                return Some(i);
            }
            i = i + 1;
        }
        None
    }

    /// The cached monitor under `key`, if any.
    pub fn get(&self, key: &str) -> (r: Option<&Monitor>)
        ensures
            r is Some <==> cache_has_key(self.contents(), key@),
            r matches Some(m) ==> cache_has(self.contents(), key@, *m),
    {
        let e = self.find_key(key);
        match e {
            Some(i) => Some(&self.entries[i].1),
            None => None,
        }
    }

    /// Caches `value` under `key`, replacing any previous entry.
    pub fn insert(&mut self, key: String, value: Monitor)
        requires
            old(self).wf(),
        ensures
            final(self).wf(),
            forall|k: Seq<char>, m: Monitor|
                cache_has(final(self).contents(), k, m) <==> ((k == key@ && m == value) || (
                cache_has(old(self).contents(), k, m) && k != key@)),
    {
        let ghost pre = self.entries@;
        let e = self.find_key(&key);
        match e {
            Some(i) => {
                self.entries.remove(i);
                proof {
                    let mid = self.entries@;
                    assert forall|k: Seq<char>, m: Monitor|
                        cache_has(mid, k, m) implies (cache_has(pre, k, m) && k != key@) by {
                        let j = choose|j: int|
                            0 <= j < mid.len() && (#[trigger] mid[j]).0@ == k && mid[j].1 == m;
                        let j0: int = if j < i { j } else { j + 1 };
                        assert(pre[j0] == mid[j]);
                        if j0 != i as int {
                            if j0 < i as int {
                                assert(pre[j0].0@ != pre[i as int].0@);
                            } else {
                                assert(pre[i as int].0@ != pre[j0].0@);
                            }
                        }
                    }
                    assert forall|k: Seq<char>, m: Monitor|
                        cache_has(pre, k, m) && k != key@ implies cache_has(mid, k, m) by {
                        let j = choose|j: int|
                            0 <= j < pre.len() && (#[trigger] pre[j]).0@ == k && pre[j].1 == m;
                        let j1: int = if j < i { j } else { j - 1 };
                        assert(mid[j1] == pre[j]);
                    }
                    assert forall|p: int, q: int|
                        #![trigger mid[p].0, mid[q].0]
                        0 <= p < q < mid.len() implies mid[p].0@ != mid[q].0@ by {
                        let p0: int = if p < i { p } else { p + 1 };
                        let q0: int = if q < i { q } else { q + 1 };
                        assert(mid[p] == pre[p0] && mid[q] == pre[q0]);
                    }
                }
            },
            None => {
                proof {
                    assert forall|k: Seq<char>, m: Monitor|
                        cache_has(self.entries@, k, m) implies (cache_has(pre, k, m) && k
                            != key@) by {
                        let j = choose|j: int|
                            0 <= j < self.entries@.len() && (#[trigger] self.entries@[j]).0@ == k
                                && self.entries@[j].1 == m;
                        assert(self.entries@[j].0@ != key@);
                    }
                }
            },
        }
        let ghost mid = self.entries@;
        self.entries.push((key, value));
        proof {
            let post = self.entries@;
            assert(post[post.len() - 1].0@ == key@ && post[post.len() - 1].1 == value);
            assert(cache_has(post, key@, value));
            assert forall|k: Seq<char>, m: Monitor|
                cache_has(post, k, m) implies ((k == key@ && m == value) || (cache_has(mid, k, m)
                    && k != key@)) by {
                let j = choose|j: int|
                    0 <= j < post.len() && (#[trigger] post[j]).0@ == k && post[j].1 == m;
                if j < post.len() - 1 {
                    assert(mid[j] == post[j]);
                    assert(!cache_has_key(mid, key@));
                    if k == key@ {
                        assert(mid[j].0@ == key@);
                        assert(false);
                    }
                }
            }
            assert forall|k: Seq<char>, m: Monitor|
                cache_has(mid, k, m) && k != key@ implies cache_has(post, k, m) by {
                let j = choose|j: int|
                    0 <= j < mid.len() && (#[trigger] mid[j]).0@ == k && mid[j].1 == m;
                assert(post[j] == mid[j]);
            }
            assert forall|p: int, q: int|
                #![trigger post[p].0, post[q].0]
                0 <= p < q < post.len() implies post[p].0@ != post[q].0@ by {
                if q == post.len() - 1 {
                    assert(post[p] == mid[p]);
                    assert(!cache_has_key(mid, key@));
                    if post[p].0@ == key@ {
                        assert(cache_has_key(mid, key@));
                    }
                }
            }
        }
    }

    /// Drops the entry under `key`, if any; cache entries are used once.
    pub fn remove(&mut self, key: &str)
        requires
            old(self).wf(),
        ensures
            final(self).wf(),
            !cache_has_key(final(self).contents(), key@),
            forall|k: Seq<char>, m: Monitor|
                cache_has(final(self).contents(), k, m) <==> (cache_has(old(self).contents(), k, m)
                    && k != key@),
    {
        let ghost pre = self.entries@;
        let e = self.find_key(key);
        match e {
            Some(i) => {
                self.entries.remove(i);
                proof {
                    let mid = self.entries@;
                    assert forall|k: Seq<char>, m: Monitor|
                        cache_has(mid, k, m) implies (cache_has(pre, k, m) && k != key@) by {
                        let j = choose|j: int|
                            0 <= j < mid.len() && (#[trigger] mid[j]).0@ == k && mid[j].1 == m;
                        let j0: int = if j < i { j } else { j + 1 };
                        assert(pre[j0] == mid[j]);
                        if j0 != i as int {
                            if j0 < i as int {
                                assert(pre[j0].0@ != pre[i as int].0@);
                            } else {
                                assert(pre[i as int].0@ != pre[j0].0@);
                            }
                        }
                    }
                    assert forall|k: Seq<char>, m: Monitor|
                        cache_has(pre, k, m) && k != key@ implies cache_has(mid, k, m) by {
                        let j = choose|j: int|
                            0 <= j < pre.len() && (#[trigger] pre[j]).0@ == k && pre[j].1 == m;
                        if j != i as int {
                            let j1: int = if j < i { j } else { j - 1 };
                            assert(mid[j1] == pre[j]);
                        } else {
                            assert(pre[i as int].0@ == key@);
                        }
                    }
                    assert forall|p: int, q: int|
                        #![trigger mid[p].0, mid[q].0]
                        0 <= p < q < mid.len() implies mid[p].0@ != mid[q].0@ by {
                        let p0: int = if p < i { p } else { p + 1 };
                        let q0: int = if q < i { q } else { q + 1 };
                        assert(mid[p] == pre[p0] && mid[q] == pre[q0]);
                    }
                    assert forall|j: int| 0 <= j < mid.len() implies (#[trigger] mid[j]).0@
                        != key@ by {
                        let j0: int = if j < i { j } else { j + 1 };
                        assert(mid[j] == pre[j0]);
                        if j0 < i as int {
                            assert(pre[j0].0@ != pre[i as int].0@);
                        } else {
                            assert(pre[i as int].0@ != pre[j0].0@);
                        }
                    }
                }
            },
            None => {
                proof {
                    assert forall|k: Seq<char>, m: Monitor|
                        cache_has(self.entries@, k, m) implies k != key@ by {
                        let j = choose|j: int|
                            0 <= j < self.entries@.len() && (#[trigger] self.entries@[j]).0@ == k
                                && self.entries@[j].1 == m;
                        assert(self.entries@[j].0@ != key@);
                    }
                }
            },
        }
    }
}

/// Responsible for tracking display attachment and caching disconnected
/// monitors' state.
#[derive(Debug)]
pub struct MonitorReconciliator {
    /// Whether the computer is active, as opposed to suspended or locked.
    pub active: bool,
    /// Disconnected monitors, keyed by serial number id or device id.
    pub monitor_cache: MonitorCache,
    /// The user's display index preferences, by index.
    pub display_index_preferences: Vec<(usize, String)>,
    /// Serial number ids that several displays share and that are therefore
    /// unusable as identities.
    pub duplicate_serial_ids: Vec<String>,
}

/// The cache key `insert_in_monitor_cache` files a monitor under: the
/// monitor's device id when some display index preference names it, else
/// its serial number id when a preference names that, else the caller's
/// fallback key.
pub open spec fn preferred_cache_id(
    prefs: Seq<(usize, String)>,
    m: Monitor,
    fallback: Seq<char>,
) -> Seq<char> {
    if exists|i: int| 0 <= i < prefs.len() && (#[trigger] prefs[i]).1@ == m.device_id@ {
        m.device_id@
    } else if m.serial_number_id matches Some(sn) && exists|i: int|
        0 <= i < prefs.len() && (#[trigger] prefs[i]).1@ == sn@ {
        m.serial_number_id->Some_0@
    } else {
        fallback
    }
}

impl MonitorReconciliator {
    /// A fresh reconciliator: active, with an empty cache. The hidden native
    /// window that relays monitor events is the driver's concern.
    pub fn new() -> (r: MonitorReconciliator)
        ensures
            r.active,
            r.monitor_cache.wf(),
            r.monitor_cache.contents().len() == 0,
            r.display_index_preferences@.len() == 0,
            r.duplicate_serial_ids@.len() == 0,
    {
        MonitorReconciliator {
            active: true,
            monitor_cache: MonitorCache::new(),
            display_index_preferences: Vec::new(),
            duplicate_serial_ids: Vec::new(),
        }
    }

    /// Caches a disconnected monitor under the id the user's display index
    /// preferences prefer, falling back to the given serial or device id.
    pub fn insert_in_monitor_cache(&mut self, serial_or_device_id: String, monitor: Monitor)
        requires
            old(self).monitor_cache.wf(),
        ensures
            final(self).monitor_cache.wf(),
            final(self).active == old(self).active,
            final(self).display_index_preferences == old(self).display_index_preferences,
            cache_has(
                final(self).monitor_cache.contents(),
                preferred_cache_id(
                    old(self).display_index_preferences@,
                    monitor,
                    serial_or_device_id@,
                ),
                monitor,
            ),
            forall|k: Seq<char>, m: Monitor|
                cache_has(final(self).monitor_cache.contents(), k, m) <==> ((k
                    == preferred_cache_id(
                    old(self).display_index_preferences@,
                    monitor,
                    serial_or_device_id@,
                ) && m == monitor) || (cache_has(old(self).monitor_cache.contents(), k, m) && k
                    != preferred_cache_id(
                    old(self).display_index_preferences@,
                    monitor,
                    serial_or_device_id@,
                ))),
    {
        let mut device_id_preferred = false;
        let mut i: usize = 0;
        while i < self.display_index_preferences.len()
            invariant
                0 <= i <= self.display_index_preferences@.len(),
                device_id_preferred == exists|j: int|
                    0 <= j < i && (#[trigger] self.display_index_preferences@[j]).1@
                        == monitor.device_id@,
            decreases self.display_index_preferences@.len() - i,
        {
            if self.display_index_preferences[i].1 == monitor.device_id {
                device_id_preferred = true;
            }
            i = i + 1;
        }
        let mut serial_preferred = false;
        match &monitor.serial_number_id {
            Some(sn) => {
                let mut j: usize = 0;
                while j < self.display_index_preferences.len()
                    invariant
                        0 <= j <= self.display_index_preferences@.len(),
                        monitor.serial_number_id matches Some(sn0) && sn0@ == sn@,
                        serial_preferred == exists|p: int|
                            0 <= p < j && (#[trigger] self.display_index_preferences@[p]).1@
                                == sn@,
                    decreases self.display_index_preferences@.len() - j,
                {
                    if self.display_index_preferences[j].1 == *sn {
                        serial_preferred = true;
                    }
                    j = j + 1;
                }
            },
            None => {},
        }
        let preferred_id: String = if device_id_preferred {
            monitor.device_id.clone()
        } else if serial_preferred {
            match &monitor.serial_number_id {
                Some(sn) => sn.clone(),
                None => String::new(),
            }
        } else {
            serial_or_device_id
        };
        self.monitor_cache.insert(preferred_id, monitor);
    }
}


/// Forwards a monitor event to the runtime.
pub fn send_notification(rt: &mut crate::runtime::Runtime, notification: MonitorNotification) -> (accepted: bool)
    ensures
        crate::runtime::control_submitted(
            *old(rt),
            *final(rt),
            accepted,
            crate::runtime::Control::Monitor(notification),
        ),
{
    crate::runtime::send_message(
        rt,
        crate::runtime::Message::Control(crate::runtime::Control::Monitor(notification)),
    )
}


/// The prefix display enumeration puts before a device name.
pub open spec fn display_prefix() -> Seq<char> {
    "\\\\.\\"@
}

/// The device name with the display prefix removed, when present.
pub open spec fn spec_trimmed_name(n: Seq<char>) -> Seq<char> {
    if n.len() >= display_prefix().len() && n.take(display_prefix().len() as int)
        == display_prefix() {
        n.skip(display_prefix().len() as int)
    } else {
        n
    }
}

/// The monitor name derived from a device name: the prefix-free part up to
/// the first backslash.
pub open spec fn spec_display_name(n: Seq<char>) -> Seq<char> {
    spec_split(spec_trimmed_name(n), '\\')[0]
}

/// The identity pieces of a device path: everything between the first and
/// the last `#`-separated component.
pub open spec fn spec_device_parts(path: Seq<char>) -> Seq<Seq<char>> {
    let p = spec_split(path, '#');
    p.subrange(1, p.len() - 1)
}

/// The device of a device path: its first identity piece.
pub open spec fn spec_device_of(path: Seq<char>) -> Seq<char> {
    spec_device_parts(path)[0]
}

/// The device id of a device path: its identity pieces joined with dashes.
pub open spec fn spec_device_id_of(path: Seq<char>) -> Seq<char> {
    spec_join(spec_device_parts(path), '-')
}

/// Whether two attached displays report the serial number id `sn`.
pub open spec fn serial_duplicated(displays: Seq<Device>, sn: Seq<char>) -> bool {
    exists|i: int, j: int|
        #![trigger displays[i], displays[j]]
        ({
            &&& 0 <= i < j < displays.len()
            &&& displays[i].serial_number_id matches Some(a) && a@ == sn
            &&& displays[j].serial_number_id matches Some(b) && b@ == sn
        })
}

/// Whether `x` occurs among the strings `s`.
pub open spec fn string_listed(s: Seq<String>, x: Seq<char>) -> bool {
    exists|k: int| 0 <= k < s.len() && (#[trigger] s[k])@ == x
}

fn listed(v: &Vec<String>, x: &String) -> (r: bool)
    ensures
        r == string_listed(v@, x@),
{
    let mut i: usize = 0;
    while i < v.len()
        invariant
            0 <= i <= v@.len(),
            forall|j: int| 0 <= j < i ==> (#[trigger] v@[j])@ != x@,
        decreases v@.len() - i,
    {
        if v[i] == *x {
            return true;
        }
        i = i + 1;
    }
    false
}

/// Records every serial number id that more than one attached display
/// reports: such an id cannot identify a monitor.
#[verifier::loop_isolation(false)]
fn collect_duplicate_serials(displays: &Vec<Device>, dups: &mut Vec<String>)
    ensures
        forall|x: Seq<char>|
            #![trigger string_listed(final(dups)@, x)]
            string_listed(final(dups)@, x) ==> (string_listed(old(dups)@, x) || serial_duplicated(
                displays@,
                x,
            )),
        forall|x: Seq<char>|
            #![trigger string_listed(old(dups)@, x)]
            string_listed(old(dups)@, x) ==> string_listed(final(dups)@, x),
        forall|x: Seq<char>|
            #![trigger serial_duplicated(displays@, x)]
            serial_duplicated(displays@, x) ==> string_listed(final(dups)@, x),
{
    let mut i: usize = 0;
    while i < displays.len()
        invariant
            0 <= i <= displays@.len(),
            forall|x: Seq<char>|
                string_listed(dups@, x) ==> (string_listed(old(dups)@, x) || serial_duplicated(
                    displays@,
                    x,
                )),
            forall|x: Seq<char>| string_listed(old(dups)@, x) ==> string_listed(dups@, x),
            forall|i2: int|
                0 <= i2 < i ==> ((#[trigger] displays@[i2]).serial_number_id matches Some(a) ==> (
                serial_duplicated(displays@, a@) ==> string_listed(dups@, a@))),
        decreases displays@.len() - i,
    {
        match &displays[i].serial_number_id {
            Some(sn) => {
                let mut dup = false;
                let mut j: usize = 0;
                while j < displays.len()
                    invariant
                        0 <= j <= displays@.len(),
                        dup == exists|j2: int|
                            ({
                                &&& 0 <= j2 < j
                                &&& j2 != i
                                &&& (#[trigger] displays@[j2]).serial_number_id matches Some(b)
                                    && b@ == sn@
                            }),
                    decreases displays@.len() - j,
                {
                    if j != i {
                        match &displays[j].serial_number_id {
                            Some(other) => {
                                if *other == *sn {
                                    dup = true;
                                }
                            },
                            None => {},
                        }
                    }
                    j = j + 1;
                }
                let already = listed(dups, sn);
                if dup && !already {
                    let ghost pre = dups@;
                    dups.push(sn.clone());
                    proof {
                        assert(dups@[dups@.len() - 1]@ == sn@);
                        assert forall|x: Seq<char>|
                            string_listed(pre, x) implies string_listed(dups@, x) by {
                            let k = choose|k: int| 0 <= k < pre.len() && (#[trigger] pre[k])@ == x;
                            assert(dups@[k]@ == x);
                        }
                        let j2 = choose|j2: int|
                            ({
                                &&& 0 <= j2 < displays@.len()
                                &&& j2 != i
                                &&& (#[trigger] displays@[j2]).serial_number_id matches Some(b)
                                    && b@ == sn@
                            });
                        if j2 < i as int {
                            assert(serial_duplicated(displays@, sn@));
                        } else {
                            assert(serial_duplicated(displays@, sn@));
                        }
                        assert forall|x: Seq<char>|
                            string_listed(dups@, x) implies (string_listed(old(dups)@, x)
                            || serial_duplicated(displays@, x)) by {
                            let k = choose|k: int|
                                0 <= k < dups@.len() && (#[trigger] dups@[k])@ == x;
                            if k < dups@.len() - 1 {
                                assert(pre[k]@ == x);
                                assert(string_listed(pre, x));
                            } else {
                                assert(x == sn@);
                            }
                        }
                    }
                }
                proof {
                    if dup {
                        assert(string_listed(dups@, sn@));
                    }
                    assert forall|i2: int|
                        0 <= i2 < i + 1 implies ((
                    #[trigger] displays@[i2]).serial_number_id matches Some(a) ==> (
                    serial_duplicated(displays@, a@) ==> string_listed(dups@, a@))) by {
                        if i2 == i as int {
                            if displays@[i2].serial_number_id matches Some(a) && serial_duplicated(
                                displays@,
                                a@,
                            ) {
                                let (p, q) = choose|p: int, q: int|
                                    #![trigger displays@[p], displays@[q]]
                                    ({
                                        &&& 0 <= p < q < displays@.len()
                                        &&& displays@[p].serial_number_id matches Some(c) && c@
                                            == sn@
                                        &&& displays@[q].serial_number_id matches Some(b) && b@
                                            == sn@
                                    });
                                if p != i as int {
                                    assert(dup);
                                } else {
                                    assert(q != i as int);
                                    assert(dup);
                                }
                            }
                        }
                    }
                }
            },
            None => {},
        }
        i = i + 1;
    }
    proof {
        assert forall|x: Seq<char>|
            serial_duplicated(displays@, x) implies string_listed(dups@, x) by {
            let (p, q) = choose|p: int, q: int|
                #![trigger displays@[p], displays@[q]]
                ({
                    &&& 0 <= p < q < displays@.len()
                    &&& displays@[p].serial_number_id matches Some(a) && a@ == x
                    &&& displays@[q].serial_number_id matches Some(b) && b@ == x
                });
        }
    }
}

/// Every device path is either empty or holds the `#`-separated form the
/// display enumeration produces: at least a head, one identity piece and a
/// tail.
pub open spec fn device_paths_ok(displays: Seq<Device>) -> bool {
    forall|i: int|
        0 <= i < displays.len() ==> ((#[trigger] displays[i]).device_path@.len() == 0
            || spec_split(displays[i].device_path@, '#').len() >= 3)
}

/// Builds the monitors for the currently attached display devices: parses
/// each device path into a device and a device id, derives the monitor name,
/// and withholds serial number ids that several displays share (recording
/// them in `dups`).
#[verifier::loop_isolation(false)]
pub fn attached_display_devices(displays: &Vec<Device>, dups: &mut Vec<String>) -> (r: Vec<
    Monitor,
>)
    requires
        device_paths_ok(displays@),
    ensures
        forall|x: Seq<char>|
            #![trigger string_listed(final(dups)@, x)]
            string_listed(final(dups)@, x) ==> (string_listed(old(dups)@, x) || serial_duplicated(
                displays@,
                x,
            )),
        forall|x: Seq<char>|
            #![trigger string_listed(old(dups)@, x)]
            string_listed(old(dups)@, x) ==> string_listed(final(dups)@, x),
        forall|x: Seq<char>|
            #![trigger serial_duplicated(displays@, x)]
            serial_duplicated(displays@, x) ==> string_listed(final(dups)@, x),
        r@.len() == displays@.len(),
        forall|i: int|
            0 <= i < displays@.len() ==> {
                let d = #[trigger] displays@[i];
                let m = r@[i];
                &&& m.id == d.hmonitor
                &&& m.size == d.size
                &&& m.work_area_size == d.work_area_size
                &&& m.name@ == spec_display_name(d.device_name@)
                &&& (d.device_path@.len() == 0 ==> m.device@ == "UNKNOWN"@ && m.device_id@
                    == "UNKNOWN"@)
                &&& (d.device_path@.len() > 0 ==> m.device@ == spec_device_of(d.device_path@)
                    && m.device_id@ == spec_device_id_of(d.device_path@))
                &&& (match d.serial_number_id {
                    Some(sn) => if string_listed(final(dups)@, sn@) {
                        m.serial_number_id is None
                    } else {
                        m.serial_number_id matches Some(x) && x@ == sn@
                    },
                    None => m.serial_number_id is None,
                })
                &&& m.workspaces@.len() == 1
                &&& m.focused_workspace_idx == 0
            },
{
    collect_duplicate_serials(displays, dups);
    let ghost dups_after_collect = dups@;
    let mut out: Vec<Monitor> = Vec::new();
    let mut i: usize = 0;
    while i < displays.len()
        invariant
            0 <= i <= displays@.len(),
            out@.len() == i,
            forall|i2: int|
                0 <= i2 < i ==> {
                    let d = #[trigger] displays@[i2];
                    let m = out@[i2];
                    &&& m.id == d.hmonitor
                    &&& m.size == d.size
                    &&& m.work_area_size == d.work_area_size
                    &&& m.name@ == spec_display_name(d.device_name@)
                    &&& (d.device_path@.len() == 0 ==> m.device@ == "UNKNOWN"@ && m.device_id@
                        == "UNKNOWN"@)
                    &&& (d.device_path@.len() > 0 ==> m.device@ == spec_device_of(d.device_path@)
                        && m.device_id@ == spec_device_id_of(d.device_path@))
                    &&& (match d.serial_number_id {
                        Some(sn) => if string_listed(dups@, sn@) {
                            m.serial_number_id is None
                        } else {
                            m.serial_number_id matches Some(x) && x@ == sn@
                        },
                        None => m.serial_number_id is None,
                    })
                    &&& m.workspaces@.len() == 1
                    &&& m.focused_workspace_idx == 0
                },
            dups@ == dups_after_collect,
        decreases displays@.len() - i,
    {
        let d = &displays[i];
        proof {
            assert((#[trigger] displays@[i as int]).device_path@.len() == 0 || spec_split(
                displays@[i as int].device_path@,
                '#',
            ).len() >= 3);
        }
        let path_len = d.device_path.as_str().unicode_len();
        let device: String;
        let device_id: String;
        if path_len == 0 {
            device = "UNKNOWN".to_owned();
            device_id = "UNKNOWN".to_owned();
        } else {
            let mut parts = split_char(d.device_path.as_str(), '#');
            proof {
                assert(views_of(parts@).len() >= 3);
            }
            parts.remove(0);
            let plen = parts.len();
            let _ = parts.remove(plen - 1);
            proof {
                assert(views_of(parts@) =~= spec_device_parts(d.device_path@));
            }
            device = parts[0].clone();
            proof {
                reveal_strlit("-");
                assert("-"@ =~= seq!['-']);
            }
            device_id = join_char(&parts, "-");
            proof {
                assert(device@ == views_of(parts@)[0]);
            }
        }
        let trimmed = trim_prefix(d.device_name.as_str(), "\\\\.\\");
        proof {
            assert(trimmed@ == spec_trimmed_name(d.device_name@));
        }
        let mut nparts = split_char(trimmed, '\\');
        let ghost nviews = views_of(nparts@);
        let name = nparts.remove(0);
        proof {
            assert(name@ == nviews[0]);
            assert(name@ == spec_display_name(d.device_name@));
        }
        let serial: Option<String> = match &d.serial_number_id {
            Some(sn) => {
                if listed(dups, sn) {
                    proof {
                        assert(string_listed(dups@, sn@));
                    }
                    None
                } else {
                    Some(sn.clone())
                }
            },
            None => None,
        };
        let m = monitor::new(
            d.hmonitor,
            d.size,
            d.work_area_size,
            name,
            device,
            device_id,
            serial,
        );
        out.push(m);
        i = i + 1;
    }
    out
}


/// The refreshed (full size, work area) geometry recorded for the monitor
/// with native id `id`.
pub open spec fn geometry_lookup(s: Seq<(isize, Rect, Rect)>, id: isize) -> Option<(Rect, Rect)>
    decreases s.len(),
{
    if s.len() == 0 {
        None
    } else if s[0].0 == id {
        Some((s[0].1, s[0].2))
    } else {
        geometry_lookup(s.drop_first(), id)
    }
}

fn geometry_of(s: &Vec<(isize, Rect, Rect)>, id: isize) -> (r: Option<(Rect, Rect)>)
    ensures
        r == geometry_lookup(s@, id),
{
    let mut i: usize = 0;
    proof {
        assert(s@.skip(0) =~= s@);
    }
    while i < s.len()
        invariant
            0 <= i <= s@.len(),
            geometry_lookup(s@, id) == geometry_lookup(s@.skip(i as int), id),
        decreases s@.len() - i,
    {
        if s[i].0 == id {
            proof {
                assert(s@.skip(i as int)[0] == s@[i as int]);
            }
            return Some((s[i].1, s[i].2));
        }
        proof {
            assert(s@.skip(i as int).drop_first() =~= s@.skip(i as int + 1));
        }
        i = i + 1;
    }
    proof {
        assert(s@.skip(i as int).len() == 0);
    }
    None
}

/// What one monitor notification asks of the driver once the state has been
/// reconciled.
#[derive(Debug)]
pub struct MonitorPassOutcome {
    /// Native operations to execute, in order.
    pub ops: Vec<NativeOp>,
    /// Whether a border reconciliation pass should be requested.
    pub needs_border_update: bool,
    /// Whether every monitor should be retiled.
    pub needs_retile: bool,
    /// The (monitor, workspace) pairs whose geometry changed and whose
    /// layout must be recomputed.
    pub monitors_to_update: Vec<(usize, usize)>,
}

fn retain_live_windows(
    v: &mut Vec<Window>,
    alive: &Vec<isize>,
    known: &Vec<(isize, (usize, usize))>,
)
    ensures
        final(v)@.len() <= old(v)@.len(),
        forall|k: int|
            0 <= k < final(v)@.len() ==> (alive@.contains((#[trigger] final(v)@[k]).hwnd)
                && !crate::window_manager::known_contains(known@, final(v)@[k].hwnd)),
{
    let mut out: Vec<Window> = Vec::new();
    let mut i: usize = 0;
    while i < v.len()
        invariant
            0 <= i <= v@.len(),
            out@.len() <= i,
            forall|k: int|
                0 <= k < out@.len() ==> (alive@.contains((#[trigger] out@[k]).hwnd)
                    && !crate::window_manager::known_contains(known@, out@[k].hwnd)),
        decreases v@.len() - i,
    {
        let w = v[i];
        if contains_handle(alive, w.hwnd) && !known_lookup(known, w.hwnd) {
            out.push(w);
        }
        i = i + 1;
    }
    *v = out;
}

fn contains_handle(v: &Vec<isize>, h: isize) -> (r: bool)
    ensures
        r == v@.contains(h),
{
    let mut i: usize = 0;
    while i < v.len()
        invariant
            0 <= i <= v@.len(),
            forall|j: int| 0 <= j < i ==> v@[j] != h,
        decreases v@.len() - i,
    {
        if v[i] == h {
            return true;
        }
        i = i + 1;
    }
    false
}

fn known_lookup(known: &Vec<(isize, (usize, usize))>, h: isize) -> (r: bool)
    ensures
        r == crate::window_manager::known_contains(known@, h),
{
    let mut i: usize = 0;
    while i < known.len()
        invariant
            0 <= i <= known@.len(),
            forall|j: int| 0 <= j < i ==> (#[trigger] known@[j]).0 != h,
        decreases known@.len() - i,
    {
        if known[i].0 == h {
            return true;
        }
        i = i + 1;
    }
    false
}

fn opt_serial_matches(a: &Option<String>, b: &Option<String>) -> (r: bool)
    ensures
        r == (a matches Some(x) && b matches Some(y) && x@ == y@),
{
    match (a, b) {
        (Option::Some(x), Option::Some(y)) => *x == *y,
        _ => false,
    }
}

impl crate::window_manager::WindowManager {
    /// Reconciles the monitor set against one monitor notification.
    ///
    /// Suspend and lock notifications deactivate the reconciliator; resume
    /// and unlock reactivate it and request a border pass. Work-area and
    /// resolution notifications absorb the refreshed geometry of each
    /// monitor and name the workspaces whose layout must be recomputed.
    /// A display connection change removes monitors that are no longer
    /// attached — minimizing their focused windows, caching their workspace
    /// state and dropping their workspace rules — and adds newly attached
    /// ones, restoring cached workspace state (pruned of windows that died
    /// or moved elsewhere) when a cached monitor returns.
    #[verifier::loop_isolation(false)]
    pub fn handle_monitor_notification(
        &mut self,
        notification: MonitorNotification,
        displays: &Vec<Device>,
        refreshed: &Vec<(isize, Rect, Rect)>,
        alive: &Vec<isize>,
        env: &NativeEnv,
    ) -> (out: MonitorPassOutcome)
        requires
            device_paths_ok(displays@),
            old(self).monitor_reconciliator.monitor_cache.wf(),
        ensures
            final(self).monitor_reconciliator.monitor_cache.wf(),
            (notification is EnteringSuspendedState || notification is SessionLocked) ==> (
            !final(self).monitor_reconciliator.active && final(self).monitors@ == old(
                self,
            ).monitors@ && out.ops@.len() == 0),
            (notification is ResumingFromSuspendedState || notification is SessionUnlocked)
                ==> final(self).monitor_reconciliator.active,
            (!old(self).monitor_reconciliator.active && (
            notification is ResumingFromSuspendedState || notification is SessionUnlocked))
                ==> out.needs_border_update,
            (notification is WorkAreaChanged || notification is ResolutionScalingChanged)
                ==> final(self).monitor_reconciliator.active == old(
                self,
            ).monitor_reconciliator.active,
            notification is WorkAreaChanged ==> (out.needs_border_update <==> exists|i: int|
                0 <= i < old(self).monitors@.len() && (geometry_lookup(
                    refreshed@,
                    (#[trigger] old(self).monitors@[i]).id,
                ) matches Some(g) && g.1 != old(self).monitors@[i].work_area_size)),
            notification is ResolutionScalingChanged ==> (out.needs_border_update <==> exists|i: int|
                0 <= i < old(self).monitors@.len() && (geometry_lookup(
                    refreshed@,
                    (#[trigger] old(self).monitors@[i]).id,
                ) matches Some(g) && (g.1 != old(self).monitors@[i].work_area_size || g.0 != old(
                    self,
                ).monitors@[i].size))),
            (notification is DisplayConnectionChange && (displays@.len() == old(
                self,
            ).monitors@.len() || displays@.len() == 0)) ==> (final(self).monitors@.len() == old(
                self,
            ).monitors@.len() && !out.needs_retile && !out.needs_border_update),
            notification is WorkAreaChanged ==> (final(self).monitors@.len() == old(
                self,
            ).monitors@.len() && (forall|i: int|
                0 <= i < old(self).monitors@.len() ==> {
                    let m0 = #[trigger] old(self).monitors@[i];
                    let m1 = final(self).monitors@[i];
                    &&& m1.id == m0.id
                    &&& m1.size == m0.size
                    &&& crate::monitor::workspaces_eq(m1.workspaces@, m0.workspaces@)
                    &&& (match geometry_lookup(refreshed@, m0.id) {
                        Some(g) => m1.work_area_size == g.1,
                        None => m1.work_area_size == m0.work_area_size,
                    })
                })),
    {
        let mut out = MonitorPassOutcome {
            ops: Vec::new(),
            needs_border_update: false,
            needs_retile: false,
            monitors_to_update: Vec::new(),
        };
        if !self.monitor_reconciliator.active && (match notification {
            MonitorNotification::ResumingFromSuspendedState => true,
            MonitorNotification::SessionUnlocked => true,
            _ => false,
        }) {
            // The system has resumed: reactivate and refresh the borders.
            self.monitor_reconciliator.active = true;
            out.needs_border_update = true;
        }
        let reactivated = out.needs_border_update;
        match notification {
            MonitorNotification::EnteringSuspendedState | MonitorNotification::SessionLocked => {
                // Deactivate until the system resumes or the session
                // unlocks.
                self.monitor_reconciliator.active = false;
            },
            MonitorNotification::WorkAreaChanged => {
                let mut i: usize = 0;
                while i < self.monitors.len()
                    invariant
                        0 <= i <= old(self).monitors@.len(),
                        self.monitors@.len() == old(self).monitors@.len(),
                        reactivated ==> out.needs_border_update,
                        out.needs_border_update == (reactivated || exists|j: int|
                            0 <= j < i && (geometry_lookup(
                                refreshed@,
                                (#[trigger] old(self).monitors@[j]).id,
                            ) matches Some(g) && g.1 != old(self).monitors@[j].work_area_size)),
                        forall|j: int|
                            i <= j < self.monitors@.len() ==> #[trigger] self.monitors@[j] == old(
                                self,
                            ).monitors@[j],
                        forall|j: int|
                            0 <= j < i ==> {
                                let m0 = #[trigger] old(self).monitors@[j];
                                let m1 = self.monitors@[j];
                                &&& m1.id == m0.id
                                &&& m1.size == m0.size
                                &&& crate::monitor::workspaces_eq(m1.workspaces@, m0.workspaces@)
                                &&& (match geometry_lookup(refreshed@, m0.id) {
                                    Some(g) => m1.work_area_size == g.1,
                                    None => m1.work_area_size == m0.work_area_size,
                                })
                            },
                        self.monitor_reconciliator == old(self).monitor_reconciliator,
                    decreases self.monitors@.len() - i,
                {
                    let g = geometry_of(refreshed, self.monitors[i].id);
                    match g {
                        Some(pair) => {
                            let work_area = pair.1;
                            let differs = !(self.monitors[i].work_area_size == work_area);
                            if differs {
                                let ghost pre = self.monitors@;
                                let mut m = self.monitors.remove(i);
                                let ws_idx = m.focused_workspace_idx;
                                m.work_area_size = work_area;
                                self.monitors.insert(i, m);
                                out.monitors_to_update.push((i, ws_idx));
                                out.needs_border_update = true;
                                proof {
                                    assert(self.monitors@ =~= pre.update(
                                        i as int,
                                        self.monitors@[i as int],
                                    ));
                                    crate::monitor::lemma_workspaces_eq_refl(
                                        self.monitors@[i as int].workspaces@,
                                    );
                                }
                            } else {
                                proof {
                                    crate::monitor::lemma_workspaces_eq_refl(
                                        self.monitors@[i as int].workspaces@,
                                    );
                                }
                            }
                        },
                        None => {
                            proof {
                                crate::monitor::lemma_workspaces_eq_refl(
                                    self.monitors@[i as int].workspaces@,
                                );
                            }
                        },
                    }
                    i = i + 1;
                }
            },
            MonitorNotification::ResolutionScalingChanged => {
                let mut i: usize = 0;
                while i < self.monitors.len()
                    invariant
                        0 <= i <= old(self).monitors@.len(),
                        self.monitors@.len() == old(self).monitors@.len(),
                        self.monitor_reconciliator == old(self).monitor_reconciliator,
                        reactivated ==> out.needs_border_update,
                        out.needs_border_update == (reactivated || exists|j: int|
                            0 <= j < i && (geometry_lookup(
                                refreshed@,
                                (#[trigger] old(self).monitors@[j]).id,
                            ) matches Some(g) && (g.1 != old(self).monitors@[j].work_area_size
                                || g.0 != old(self).monitors@[j].size))),
                        forall|j: int|
                            i <= j < self.monitors@.len() ==> #[trigger] self.monitors@[j] == old(
                                self,
                            ).monitors@[j],
                    decreases self.monitors@.len() - i,
                {
                    let g = geometry_of(refreshed, self.monitors[i].id);
                    match g {
                        Some(pair) => {
                            let size = pair.0;
                            let work_area = pair.1;
                            let wa_differs = !(self.monitors[i].work_area_size == work_area);
                            let sz_differs = !(self.monitors[i].size == size);
                            if wa_differs || sz_differs {
                                let ghost pre = self.monitors@;
                                let mut m = self.monitors.remove(i);
                                let ws_idx = m.focused_workspace_idx;
                                if wa_differs {
                                    m.work_area_size = work_area;
                                    out.monitors_to_update.push((i, ws_idx));
                                }
                                if sz_differs {
                                    m.size = size;
                                }
                                self.monitors.insert(i, m);
                                out.needs_border_update = true;
                                proof {
                                    assert(self.monitors@ =~= pre.update(
                                        i as int,
                                        self.monitors@[i as int],
                                    ));
                                }
                            }
                        },
                        None => {},
                    }
                    i = i + 1;
                }
            },
            MonitorNotification::ResumingFromSuspendedState
            | MonitorNotification::SessionUnlocked
            | MonitorNotification::DisplayConnectionChange => {
                let changed = self.reconcile_display_connections(
                    displays,
                    alive,
                    env,
                    &mut out.ops,
                );
                if changed {
                    out.needs_retile = true;
                    out.needs_border_update = true;
                }
            },
        }
        out
    }

    /// Removes monitors whose displays are gone — caching their state — and
    /// adds newly attached ones, restoring cached state where a cached
    /// monitor returns.
    #[verifier::loop_isolation(false)]
    fn reconcile_display_connections(
        &mut self,
        displays: &Vec<Device>,
        alive: &Vec<isize>,
        env: &NativeEnv,
        ops: &mut Vec<NativeOp>,
    ) -> (changed: bool)
        requires
            device_paths_ok(displays@),
            old(self).monitor_reconciliator.monitor_cache.wf(),
        ensures
            final(self).monitor_reconciliator.monitor_cache.wf(),
            final(self).monitor_reconciliator.active == old(self).monitor_reconciliator.active,
            (displays@.len() == old(self).monitors@.len() || displays@.len() == 0) ==> (!changed
                && final(self).monitors@.len() == old(self).monitors@.len()),
    {
        let initial_monitor_count = self.monitors.len();
        let mut attached = attached_display_devices(
            displays,
            &mut self.monitor_reconciliator.duplicate_serial_ids,
        );
        // Refresh the native data of monitors that are still attached.
        let mut mi: usize = 0;
        while mi < self.monitors.len()
            invariant
                self.monitors@.len() == initial_monitor_count,
                self.monitor_reconciliator.monitor_cache.wf(),
                self.monitor_reconciliator.active == old(self).monitor_reconciliator.active,
            decreases self.monitors@.len() - mi,
        {
            let mut ai: usize = 0;
            while ai < attached.len()
                invariant
                    0 <= ai <= attached@.len(),
                    mi < self.monitors@.len(),
                    self.monitors@.len() == initial_monitor_count,
                    self.monitor_reconciliator.monitor_cache.wf(),
                    self.monitor_reconciliator.active == old(
                        self,
                    ).monitor_reconciliator.active,
                decreases attached@.len() - ai,
            {
                let serial_match = opt_serial_matches(
                    &attached[ai].serial_number_id,
                    &self.monitors[mi].serial_number_id,
                );
                let id_match = attached[ai].device_id == self.monitors[mi].device_id;
                if serial_match || id_match {
                    let a = &attached[ai];
                    let mut m = self.monitors.remove(mi);
                    m.id = a.id;
                    m.device = a.device.clone();
                    m.device_id = a.device_id.clone();
                    m.serial_number_id = crate::monitor::clone_opt_string(
                        &a.serial_number_id,
                    );
                    m.name = a.name.clone();
                    m.size = a.size;
                    m.work_area_size = a.work_area_size;
                    self.monitors.insert(mi, m);
                }
                ai = ai + 1;
            }
            mi = mi + 1;
        }
        if initial_monitor_count == attached.len() {
            // Monitor counts match: no reconciliation required.
            return false;
        }
        if attached.len() == 0 {
            // No devices found: skip reconciliation to avoid breaking state.
            return false;
        }
        if initial_monitor_count > attached.len() {
            // Some monitors were disconnected: remove them, minimizing their
            // focused windows, dropping their workspace rules and caching
            // their state for a later reconnect.
            let mut windows_to_remove: Vec<isize> = Vec::new();
            let mut mi2: usize = 0;
            while mi2 < self.monitors.len()
                invariant
                    mi2 <= self.monitors@.len(),
                    self.monitor_reconciliator.monitor_cache.wf(),
                    self.monitor_reconciliator.active == old(
                        self,
                    ).monitor_reconciliator.active,
                decreases self.monitors@.len() - mi2,
            {
                let mut present = false;
                let mut ai: usize = 0;
                while ai < attached.len()
                    invariant
                        0 <= ai <= attached@.len(),
                        mi2 < self.monitors@.len(),
                    decreases attached@.len() - ai,
                {
                    let serial_match = opt_serial_matches(
                        &attached[ai].serial_number_id,
                        &self.monitors[mi2].serial_number_id,
                    );
                    let id_match = attached[ai].device_id == self.monitors[mi2].device_id;
                    if serial_match || id_match {
                        present = true;
                    }
                    ai = ai + 1;
                }
                if present {
                    mi2 = mi2 + 1;
                } else {
                    let m = self.monitors.remove(mi2);
                    // Collect the monitor's windows and minimize the focused
                    // ones, since the system might otherwise move them.
                    let focused_workspace_idx = m.focused_workspace_idx;
                    let mut wj: usize = 0;
                    while wj < m.workspaces.len()
                        invariant
                            self.monitor_reconciliator.monitor_cache.wf(),
                        decreases m.workspaces@.len() - wj,
                    {
                        let ws = &m.workspaces[wj];
                        let is_focused_workspace = wj == focused_workspace_idx;
                        let mut cj: usize = 0;
                        while cj < ws.containers.len()
                            decreases ws.containers@.len() - cj,
                        {
                            let c = &ws.containers[cj];
                            let mut wk: usize = 0;
                            while wk < c.windows.len()
                                decreases c.windows@.len() - wk,
                            {
                                let w = c.windows[wk];
                                windows_to_remove.push(w.hwnd);
                                if is_focused_workspace && cj == ws.focused_container_idx && wk
                                    == c.focused_window_idx && w.hwnd == env.foreground_window {
                                    ops.push(NativeOp::MinimizeWindow { hwnd: w.hwnd });
                                }
                                wk = wk + 1;
                            }
                            cj = cj + 1;
                        }
                        match ws.maximized_window {
                            Some(w) => {
                                windows_to_remove.push(w.hwnd);
                                if w.hwnd == env.foreground_window {
                                    ops.push(NativeOp::MinimizeWindow { hwnd: w.hwnd });
                                }
                            },
                            None => {},
                        }
                        match &ws.monocle_container {
                            Some(mc) => {
                                let mut wk: usize = 0;
                                while wk < mc.windows.len()
                                    decreases mc.windows@.len() - wk,
                                {
                                    windows_to_remove.push(mc.windows[wk].hwnd);
                                    wk = wk + 1;
                                }
                                match mc.focused_window() {
                                    Some(w) => {
                                        if w.hwnd == env.foreground_window {
                                            ops.push(
                                                NativeOp::MinimizeWindow { hwnd: w.hwnd },
                                            );
                                        }
                                    },
                                    None => {},
                                }
                            },
                            None => {},
                        }
                        let mut fk: usize = 0;
                        while fk < ws.floating_windows.len()
                            decreases ws.floating_windows@.len() - fk,
                        {
                            let w = ws.floating_windows[fk];
                            windows_to_remove.push(w.hwnd);
                            if w.hwnd == env.foreground_window {
                                ops.push(NativeOp::MinimizeWindow { hwnd: w.hwnd });
                            }
                            fk = fk + 1;
                        }
                        wj = wj + 1;
                    }
                    // Drop the workspace rules of the removed monitor.
                    let mut kept_rules: Vec<crate::window_manager::WorkspaceRule> = Vec::new();
                    let mut ri: usize = 0;
                    while ri < self.workspace_matching_rules.len()
                        invariant
                            0 <= ri <= self.workspace_matching_rules@.len(),
                        decreases self.workspace_matching_rules@.len() - ri,
                    {
                        let rule = &self.workspace_matching_rules[ri];
                        if rule.monitor_index != mi2 {
                            kept_rules.push(
                                crate::window_manager::WorkspaceRule {
                                    monitor_index: rule.monitor_index,
                                    workspace_index: rule.workspace_index,
                                    matching_rule: rule.matching_rule.clone(),
                                    initial_only: rule.initial_only,
                                },
                            );
                        }
                        ri = ri + 1;
                    }
                    self.workspace_matching_rules = kept_rules;
                    // Cache the monitor's state under the preferred id.
                    let fallback: String = match &m.serial_number_id {
                        Some(sn) => sn.clone(),
                        None => m.device_id.clone(),
                    };
                    self.monitor_reconciliator.insert_in_monitor_cache(fallback, m);
                }
            }
            // Forget the removed monitors' windows.
            let mut kept_known: Vec<(isize, (usize, usize))> = Vec::new();
            let mut kwi: usize = 0;
            while kwi < self.known_hwnds.len()
                invariant
                    0 <= kwi <= self.known_hwnds@.len(),
                decreases self.known_hwnds@.len() - kwi,
            {
                let entry = self.known_hwnds[kwi];
                if !contains_handle(&windows_to_remove, entry.0) {
                    kept_known.push(entry);
                }
                kwi = kwi + 1;
            }
            self.known_hwnds = kept_known;
            if self.focused_monitor_idx >= self.monitors.len() {
                self.focused_monitor_idx = 0;
            }
        }
        let post_removal_monitor_count = self.monitors.len();
        // The device ids present after removal; a device id not in this
        // list marks a newly added monitor.
        let mut post_removal_device_ids: Vec<String> = Vec::new();
        let mut di: usize = 0;
        while di < self.monitors.len()
            invariant
                self.monitor_reconciliator.monitor_cache.wf(),
            decreases self.monitors@.len() - di,
        {
            post_removal_device_ids.push(self.monitors[di].device_id.clone());
            di = di + 1;
        }
        // Add any monitors that were plugged in.
        loop
            invariant
                self.monitor_reconciliator.monitor_cache.wf(),
                self.monitor_reconciliator.active == old(self).monitor_reconciliator.active,
            decreases attached@.len(),
        {
            if attached.len() == 0 {
                break ;
            }
            let a = attached.remove(0);
            let mut known_device = false;
            let mut ki: usize = 0;
            while ki < self.monitors.len()
                invariant
                    self.monitor_reconciliator.monitor_cache.wf(),
                decreases self.monitors@.len() - ki,
            {
                if self.monitors[ki].device_id == a.device_id {
                    known_device = true;
                }
                ki = ki + 1;
            }
            if !known_device {
                self.monitors.push(a);
            }
        }
        let post_addition_monitor_count = self.monitors.len();
        if post_addition_monitor_count > post_removal_monitor_count {
            // Restore cached workspace state onto returning monitors.
            let mut ni: usize = 0;
            while ni < self.monitors.len()
                invariant
                    self.monitor_reconciliator.monitor_cache.wf(),
                    self.monitor_reconciliator.active == old(
                        self,
                    ).monitor_reconciliator.active,
                decreases self.monitors@.len() - ni,
            {
                let is_new = !{
                    let id_ref = &self.monitors[ni].device_id;
                    listed(&post_removal_device_ids, id_ref)
                };
                if is_new {
                    let hit: Option<(String, Monitor)> = {
                        let by_device = self.monitor_reconciliator.monitor_cache.get(
                            self.monitors[ni].device_id.as_str(),
                        );
                        match by_device {
                            Some(cached) => Some(
                                (self.monitors[ni].device_id.clone(), cached.clone()),
                            ),
                            None => {
                                match &self.monitors[ni].serial_number_id {
                                    Some(sn) => {
                                        let by_serial =
                                            self.monitor_reconciliator.monitor_cache.get(
                                            sn.as_str(),
                                        );
                                        match by_serial {
                                            Some(cached) => Some((sn.clone(), cached.clone())),
                                            None => None,
                                        }
                                    },
                                    None => None,
                                }
                            },
                        }
                    };
                    match hit {
                        Some(pair) => {
                            let (cached_id, cached) = pair;
                            let m = self.monitors.remove(ni);
                            // The fresh native data stays; the workspace
                            // state returns from the cache.
                            let mut nm = Monitor {
                                id: m.id,
                                name: m.name,
                                device: m.device,
                                device_id: m.device_id,
                                serial_number_id: m.serial_number_id,
                                size: m.size,
                                work_area_size: m.work_area_size,
                                work_area_offset: cached.work_area_offset,
                                container_padding: cached.container_padding,
                                workspace_padding: cached.workspace_padding,
                                wallpaper: cached.wallpaper,
                                last_focused_workspace: cached.last_focused_workspace,
                                workspaces: cached.workspaces,
                                focused_workspace_idx: cached.focused_workspace_idx,
                            };
                            self.restore_cached_workspaces(&mut nm, ni, alive, ops);
                            self.monitors.insert(ni, nm);
                            self.monitor_reconciliator.monitor_cache.remove(
                                cached_id.as_str(),
                            );
                        },
                        None => {},
                    }
                }
                ni = ni + 1;
            }
        }
        let final_count = self.monitors.len();
        // When the count changed, retiling and a border pass settle the
        // scaling jank the change leaves behind.
        post_removal_monitor_count != final_count
    }

    /// Prunes a restored monitor's workspaces of windows that have died or
    /// are managed elsewhere, restores the windows of its focused
    /// workspace, drops containers that became empty, and re-applies the
    /// workspace rules its configuration carries.
    #[verifier::loop_isolation(false)]
    fn restore_cached_workspaces(
        &mut self,
        nm: &mut Monitor,
        monitor_index: usize,
        alive: &Vec<isize>,
        ops: &mut Vec<NativeOp>,
    )
        requires
            old(self).monitor_reconciliator.monitor_cache.wf(),
        ensures
            final(self).monitor_reconciliator.monitor_cache.wf(),
            final(self).monitor_reconciliator.active == old(self).monitor_reconciliator.active,
            final(self).monitors@ == old(self).monitors@,
    {
        let focused_workspace_idx = nm.focused_workspace_idx;
        let mut j: usize = 0;
        while j < nm.workspaces.len()
            invariant
                self.monitor_reconciliator.monitor_cache.wf(),
                self.monitor_reconciliator.active == old(self).monitor_reconciliator.active,
                self.monitors@ == old(self).monitors@,
            decreases nm.workspaces@.len() - j,
        {
            let is_focused_workspace = j == focused_workspace_idx;
            let mut ws = nm.workspaces.remove(j);
            let focused_container_idx = ws.focused_container_idx;
            // Prune dead or already-managed windows, and restore the
            // focused window of each surviving container on the focused
            // workspace.
            let mut kept_containers: Vec<crate::monitor::Container> = Vec::new();
            let mut ci: usize = 0;
            loop
                invariant
                    self.monitor_reconciliator.monitor_cache.wf(),
                    self.monitor_reconciliator.active == old(
                        self,
                    ).monitor_reconciliator.active,
                    self.monitors@ == old(self).monitors@,
                decreases ws.containers@.len(),
            {
                if ws.containers.len() == 0 {
                    break ;
                }
                let mut c = ws.containers.remove(0);
                retain_live_windows(&mut c.windows, alive, &self.known_hwnds);
                if c.windows.len() == 0 {
                    // Containers that lost every window are dropped.
                    continue ;
                }
                if is_focused_workspace {
                    if c.focused_window_idx >= c.windows.len() {
                        // The focused window went away: focus the first.
                        c.focused_window_idx = 0;
                    }
                    match c.focused_window() {
                        Some(w) => {
                            ops.push(NativeOp::RestoreWindow { hwnd: w.hwnd });
                        },
                        None => {},
                    }
                }
                kept_containers.push(c);
            }
            ws.containers = kept_containers;
            if ws.focused_container_idx >= ws.containers.len() {
                ws.focused_container_idx = 0;
            }
            match ws.maximized_window {
                Some(w) => {
                    if !contains_handle(alive, w.hwnd) || known_lookup(
                        &self.known_hwnds,
                        w.hwnd,
                    ) {
                        ws.maximized_window = None;
                    } else if is_focused_workspace {
                        ops.push(NativeOp::RestoreWindow { hwnd: w.hwnd });
                    }
                },
                None => {},
            }
            let monocle = ws.monocle_container;
            ws.monocle_container = None;
            match monocle {
                Some(mut mc) => {
                    retain_live_windows(&mut mc.windows, alive, &self.known_hwnds);
                    if mc.windows.len() > 0 {
                        if mc.focused_window_idx >= mc.windows.len() {
                            mc.focused_window_idx = 0;
                        }
                        if is_focused_workspace {
                            match mc.focused_window() {
                                Some(w) => {
                                    ops.push(NativeOp::RestoreWindow { hwnd: w.hwnd });
                                },
                                None => {},
                            }
                        }
                        ws.monocle_container = Some(mc);
                    }
                },
                None => {},
            }
            retain_live_windows(&mut ws.floating_windows, alive, &self.known_hwnds);
            if is_focused_workspace {
                let mut fi: usize = 0;
                while fi < ws.floating_windows.len()
                    invariant
                        self.monitor_reconciliator.monitor_cache.wf(),
                        self.monitor_reconciliator.active == old(
                            self,
                        ).monitor_reconciliator.active,
                        self.monitors@ == old(self).monitors@,
                    decreases ws.floating_windows@.len() - fi,
                {
                    ops.push(
                        NativeOp::RestoreWindow { hwnd: ws.floating_windows[fi].hwnd },
                    );
                    fi = fi + 1;
                }
            }
            // Re-apply the workspace rules this workspace's configuration
            // carries.
            match &ws.config {
                Some(config) => {
                    let mut ri: usize = 0;
                    while ri < config.workspace_rules.len()
                        invariant
                            self.monitor_reconciliator.monitor_cache.wf(),
                            self.monitor_reconciliator.active == old(
                                self,
                            ).monitor_reconciliator.active,
                            self.monitors@ == old(self).monitors@,
                        decreases config.workspace_rules@.len() - ri,
                    {
                        self.workspace_matching_rules.push(
                            crate::window_manager::WorkspaceRule {
                                monitor_index,
                                workspace_index: j,
                                matching_rule: config.workspace_rules[ri].clone(),
                                initial_only: false,
                            },
                        );
                        ri = ri + 1;
                    }
                    let mut ii: usize = 0;
                    while ii < config.initial_workspace_rules.len()
                        invariant
                            self.monitor_reconciliator.monitor_cache.wf(),
                            self.monitor_reconciliator.active == old(
                                self,
                            ).monitor_reconciliator.active,
                            self.monitors@ == old(self).monitors@,
                        decreases config.initial_workspace_rules@.len() - ii,
                    {
                        self.workspace_matching_rules.push(
                            crate::window_manager::WorkspaceRule {
                                monitor_index,
                                workspace_index: j,
                                matching_rule: config.initial_workspace_rules[ii].clone(),
                                initial_only: true,
                            },
                        );
                        ii = ii + 1;
                    }
                },
                None => {},
            }
            nm.workspaces.insert(j, ws);
            j = j + 1;
        }
        if nm.focused_workspace_idx >= nm.workspaces.len() {
            nm.focused_workspace_idx = 0;
        }
    }
}

} // verus!
