use vstd::prelude::*;
use vstd::multiset::Multiset;
use crate::errors::CaptureError;

verus! {

/// One input device as the catalog sees it: the display name the host
/// reported (absent names are shown as "Unknown" but sort first, as an empty
/// key), and the position the device held in the host's enumeration, which
/// the front end uses to find the underlying handle again.
pub struct Device {
    pub name: Option<String>,
    pub source_index: usize,
}

/// The string a device is ordered by: its reported name, or empty when the
/// host reported none.
pub open spec fn sort_key(d: Device) -> Seq<char> {
    match d.name {
        Some(n) => n@,
        None => Seq::empty(),
    }
}

/// Strict lexicographic order on character sequences, by code point. A total,
/// deterministic string ordering: it depends on nothing but the two
/// sequences.
pub open spec fn lex_lt(a: Seq<char>, b: Seq<char>) -> bool
    decreases a.len(),
{
    if b.len() == 0 {
        false
    } else if a.len() == 0 {
        true
    } else if (a[0] as u32) < (b[0] as u32) {
        true
    } else if (b[0] as u32) < (a[0] as u32) {
        false
    } else {
        lex_lt(a.subrange(1, a.len() as int), b.subrange(1, b.len() as int))
    }
}

/// The catalog's ordering: by sort key, and for equally keyed devices by
/// enumeration position — the order a stable sort by name leaves them in.
/// A strict total order on any device set with distinct enumeration
/// positions.
pub open spec fn device_lt(a: Device, b: Device) -> bool {
    lex_lt(sort_key(a), sort_key(b)) || (!lex_lt(sort_key(a), sort_key(b)) && !lex_lt(
        sort_key(b),
        sort_key(a),
    ) && a.source_index < b.source_index)
}

/// `d` inserted into `s` before the first element it precedes.
pub open spec fn insert_sorted(d: Device, s: Seq<Device>) -> Seq<Device>
    decreases s.len(),
{
    if s.len() == 0 {
        seq![d]
    } else if device_lt(d, s[0]) {
        seq![d] + s
    } else {
        seq![s[0]] + insert_sorted(d, s.subrange(1, s.len() as int))
    }
}

/// The catalog's listing order: each device inserted in turn into its
/// ordered place. A function of the device entries alone.
pub open spec fn sort_spec(s: Seq<Device>) -> Seq<Device>
    decreases s.len(),
{
    if s.len() == 0 {
        Seq::empty()
    } else {
        insert_sorted(s.last(), sort_spec(s.drop_last()))
    }
}

/// The device entries a fresh enumeration yields: each reported name paired
/// with its enumeration position.
pub open spec fn entries_spec(names: Seq<Option<String>>) -> Seq<Device> {
    Seq::new(names.len(), |i: int| Device { name: names[i], source_index: i as usize })
}

/// Listing order is a deterministic function of the device names present:
/// two enumerations that report the same names in the same order are listed
/// in the same order, so repeated listings on unchanged hardware agree.
pub proof fn lemma_order_deterministic(names1: Seq<Option<String>>, names2: Seq<Option<String>>)
    requires
        names1 == names2,
    ensures
        sort_spec(entries_spec(names1)) == sort_spec(entries_spec(names2)),
{
}

/// No later device in a listing precedes an earlier one.
pub open spec fn ordered(s: Seq<Device>) -> bool {
    forall|i: int, j: int| 0 <= i < j < s.len() ==> !(#[trigger] device_lt(s[j], s[i]))
}

proof fn lemma_lex_irrefl(a: Seq<char>)
    ensures
        !lex_lt(a, a),
    decreases a.len(),
{
    if a.len() > 0 {
        lemma_lex_irrefl(a.subrange(1, a.len() as int));
    }
}

proof fn lemma_lex_lt_trans(a: Seq<char>, b: Seq<char>, c: Seq<char>)
    requires
        lex_lt(a, b),
        lex_lt(b, c),
    ensures
        lex_lt(a, c),
    decreases b.len(),
{
    if a.len() > 0 {
        let ha = a[0] as u32;
        let hb = b[0] as u32;
        let hc = c[0] as u32;
        if ha == hb && hb == hc {
            lemma_lex_lt_trans(
                a.subrange(1, a.len() as int),
                b.subrange(1, b.len() as int),
                c.subrange(1, c.len() as int),
            );
        }
    }
}

proof fn lemma_lex_lt_then_equiv(a: Seq<char>, b: Seq<char>, c: Seq<char>)
    requires
        lex_lt(a, b),
        !lex_lt(b, c),
        !lex_lt(c, b),
    ensures
        lex_lt(a, c),
    decreases b.len(),
{
    if a.len() > 0 {
        let ha = a[0] as u32;
        let hb = b[0] as u32;
        let hc = c[0] as u32;
        if ha == hb && hb == hc {
            lemma_lex_lt_then_equiv(
                a.subrange(1, a.len() as int),
                b.subrange(1, b.len() as int),
                c.subrange(1, c.len() as int),
            );
        }
    }
}

proof fn lemma_lex_equiv_then_lt(a: Seq<char>, b: Seq<char>, c: Seq<char>)
    requires
        !lex_lt(a, b),
        !lex_lt(b, a),
        lex_lt(b, c),
    ensures
        lex_lt(a, c),
    decreases b.len(),
{
    if a.len() > 0 && b.len() > 0 {
        let ha = a[0] as u32;
        let hb = b[0] as u32;
        let hc = c[0] as u32;
        if ha == hb && hb == hc {
            lemma_lex_equiv_then_lt(
                a.subrange(1, a.len() as int),
                b.subrange(1, b.len() as int),
                c.subrange(1, c.len() as int),
            );
        }
    }
}

proof fn lemma_device_lt_trans(a: Device, b: Device, c: Device)
    requires
        device_lt(a, b),
        device_lt(b, c),
    ensures
        device_lt(a, c),
{
    let ka = sort_key(a);
    let kb = sort_key(b);
    let kc = sort_key(c);
    if lex_lt(ka, kb) {
        if lex_lt(kb, kc) {
            lemma_lex_lt_trans(ka, kb, kc);
        } else {
            lemma_lex_lt_then_equiv(ka, kb, kc);
        }
    } else {
        if lex_lt(kb, kc) {
            lemma_lex_equiv_then_lt(ka, kb, kc);
        } else {
            if lex_lt(ka, kc) {
                lemma_lex_lt_then_equiv(ka, kc, kb);
            }
            if lex_lt(kc, ka) {
                lemma_lex_lt_then_equiv(kc, ka, kb);
            }
        }
    }
}

proof fn lemma_device_lt_irrefl(a: Device)
    ensures
        !device_lt(a, a),
{
    lemma_lex_irrefl(sort_key(a));
}

proof fn lemma_insert_sorted_elems(d: Device, s: Seq<Device>)
    ensures
        insert_sorted(d, s).len() == s.len() + 1,
        forall|k: int|
            0 <= k < insert_sorted(d, s).len() ==> insert_sorted(d, s)[k] == d || s.contains(
                #[trigger] insert_sorted(d, s)[k],
            ),
    decreases s.len(),
{
    let r = insert_sorted(d, s);
    if s.len() == 0 {
    } else if device_lt(d, s[0]) {
        assert forall|k: int| 0 <= k < r.len() implies r[k] == d || s.contains(r[k]) by {
            if k > 0 {
                assert(r[k] == s[k - 1]);
            }
        }
    } else {
        let tail = s.subrange(1, s.len() as int);
        lemma_insert_sorted_elems(d, tail);
        assert forall|k: int| 0 <= k < r.len() implies r[k] == d || s.contains(r[k]) by {
            if k == 0 {
                assert(r[0] == s[0]);
            } else {
                let it = insert_sorted(d, tail);
                assert(r[k] == it[k - 1]);
                if it[k - 1] != d {
                    let m = choose|m: int| 0 <= m < tail.len() && tail[m] == it[k - 1];
                    assert(s[m + 1] == it[k - 1]);
                }
            }
        }
    }
}

proof fn lemma_insert_sorted_ordered(d: Device, s: Seq<Device>)
    requires
        ordered(s),
    ensures
        ordered(insert_sorted(d, s)),
    decreases s.len(),
{
    let r = insert_sorted(d, s);
    if s.len() == 0 {
    } else if device_lt(d, s[0]) {
        assert forall|i: int, j: int| 0 <= i < j < r.len() implies !device_lt(r[j], r[i]) by {
            if i == 0 {
                assert(r[j] == s[j - 1]);
                if device_lt(s[j - 1], d) {
                    lemma_device_lt_trans(s[j - 1], d, s[0]);
                    if j - 1 == 0 {
                        lemma_device_lt_irrefl(s[0]);
                    }
                }
            } else {
                assert(r[i] == s[i - 1] && r[j] == s[j - 1]);
            }
        }
    } else {
        let tail = s.subrange(1, s.len() as int);
        let it = insert_sorted(d, tail);
        assert(ordered(tail)) by {
            assert forall|i: int, j: int| 0 <= i < j < tail.len() implies !device_lt(
                tail[j],
                tail[i],
            ) by {
                assert(tail[i] == s[i + 1] && tail[j] == s[j + 1]);
            }
        }
        lemma_insert_sorted_ordered(d, tail);
        lemma_insert_sorted_elems(d, tail);
        assert forall|i: int, j: int| 0 <= i < j < r.len() implies !device_lt(r[j], r[i]) by {
            if i == 0 {
                assert(r[0] == s[0]);
                assert(r[j] == it[j - 1]);
                if it[j - 1] != d {
                    let m = choose|m: int| 0 <= m < tail.len() && tail[m] == it[j - 1];
                    assert(tail[m] == s[m + 1]);
                }
            } else {
                assert(r[i] == it[i - 1] && r[j] == it[j - 1]);
            }
        }
    }
}

proof fn lemma_insert_sorted_multiset(d: Device, s: Seq<Device>)
    ensures
        insert_sorted(d, s).to_multiset() == s.to_multiset().insert(d),
    decreases s.len(),
{
    broadcast use vstd::seq_lib::group_to_multiset_ensures;
    broadcast use vstd::multiset::group_multiset_axioms;

    if s.len() == 0 {
        assert(insert_sorted(d, s) =~= s.push(d));
    } else if device_lt(d, s[0]) {
        vstd::seq_lib::lemma_multiset_commutative(seq![d], s);
        assert(seq![d] =~= Seq::<Device>::empty().push(d));
        assert(Seq::<Device>::empty().to_multiset() =~= Multiset::<Device>::empty());
        assert((seq![d] + s).to_multiset() =~= s.to_multiset().insert(d));
    } else {
        let tail = s.subrange(1, s.len() as int);
        lemma_insert_sorted_multiset(d, tail);
        vstd::seq_lib::lemma_multiset_commutative(seq![s[0]], insert_sorted(d, tail));
        vstd::seq_lib::lemma_multiset_commutative(seq![s[0]], tail);
        assert(s =~= seq![s[0]] + tail);
        assert((seq![s[0]] + insert_sorted(d, tail)).to_multiset() =~= s.to_multiset().insert(d));
    }
}

/// The listing really is sorted: in `sort_spec`'s result no later device
/// precedes an earlier one under the catalog's total ordering.
pub proof fn lemma_sort_spec_ordered(s: Seq<Device>)
    ensures
        ordered(sort_spec(s)),
    decreases s.len(),
{
    if s.len() > 0 {
        lemma_sort_spec_ordered(s.drop_last());
        lemma_insert_sorted_ordered(s.last(), sort_spec(s.drop_last()));
    }
}

/// The listing holds exactly the enumerated devices: `sort_spec` permutes
/// its input and loses or invents nothing.
pub proof fn lemma_sort_spec_permutes(s: Seq<Device>)
    ensures
        sort_spec(s).to_multiset() == s.to_multiset(),
    decreases s.len(),
{
    broadcast use vstd::seq_lib::group_to_multiset_ensures;

    if s.len() > 0 {
        lemma_sort_spec_permutes(s.drop_last());
        lemma_insert_sorted_multiset(s.last(), sort_spec(s.drop_last()));
        assert(s =~= s.drop_last().push(s.last()));
    }
}

impl Device {
    /// The name shown to the user: the reported name, or "Unknown".
    pub open spec fn display_spec(&self) -> Seq<char> {
        match self.name {
            Some(n) => n@,
            None => "Unknown"@,
        }
    }

    /// The display name as a fresh string.
    pub fn display_name(&self) -> (r: String)
        ensures
            r@ == self.display_spec(),
    {
        match &self.name {
            Some(n) => n.clone(),
            None => String::from_str("Unknown"),
        }
    }
}

/// Compares two strings in the catalog's lexicographic order:
/// -1, 0 or 1 as `a` precedes, ties with, or follows `b`.
#[verifier::loop_isolation(false)]
fn str_cmp(a: &str, b: &str) -> (r: i32)
    ensures
        -1 <= r <= 1,
        (r == -1) == lex_lt(a@, b@),
        (r == 1) == lex_lt(b@, a@),
        (r == 0) == (!lex_lt(a@, b@) && !lex_lt(b@, a@)),
{
    let na = a.unicode_len();
    let nb = b.unicode_len();
    proof {
        assert(a@.subrange(0, na as int) =~= a@);
        assert(b@.subrange(0, nb as int) =~= b@);
    }
    let mut i: usize = 0;
    while i < na && i < nb
        invariant
            i <= na,
            i <= nb,
            na == a@.len(),
            nb == b@.len(),
            lex_lt(a@, b@) == lex_lt(
                a@.subrange(i as int, na as int),
                b@.subrange(i as int, nb as int),
            ),
            lex_lt(b@, a@) == lex_lt(
                b@.subrange(i as int, nb as int),
                a@.subrange(i as int, na as int),
            ),
        decreases na - i,
    {
        let ca = a.get_char(i);
        let cb = b.get_char(i);
        proof {
            let sa = a@.subrange(i as int, na as int);
            let sb = b@.subrange(i as int, nb as int);
            assert(sa[0] == a@[i as int] && sb[0] == b@[i as int]);
            assert(sa.subrange(1, sa.len() as int) =~= a@.subrange(i + 1, na as int));
            assert(sb.subrange(1, sb.len() as int) =~= b@.subrange(i + 1, nb as int));
        }
        if (ca as u32) < (cb as u32) {
            return -1;
        } else if (cb as u32) < (ca as u32) {
            return 1;
        }
        i = i + 1;
    }
    proof {
        let sa = a@.subrange(i as int, na as int);
        let sb = b@.subrange(i as int, nb as int);
        assert(sa.len() == 0 || sb.len() == 0);
    }
    if na == nb {
        0
    } else if na < nb {
        -1
    } else {
        1
    }
}

/// The string a device is ordered by, as a borrowed slice.
fn key_of(d: &Device) -> (r: &str)
    ensures
        r@ == sort_key(*d),
{
    match &d.name {
        Some(n) => n.as_str(),
        None => {
            let s = "";
            proof {
                reveal_strlit("");
                assert(s@ =~= Seq::<char>::empty());
            }
            s
        },
    }
}

/// Whether `a` comes before `b` in the catalog's ordering.
fn device_before(a: &Device, b: &Device) -> (r: bool)
    ensures
        r == device_lt(*a, *b),
{
    let c = str_cmp(key_of(a), key_of(b));
    if c == -1 {
        true
    } else if c == 0 {
        a.source_index < b.source_index
    } else {
        false
    }
}

/// Inserts `d` into the already ordered `list` at its ordered place.
#[verifier::loop_isolation(false)]
fn insert_device(list: Vec<Device>, d: Device) -> (r: Vec<Device>)
    ensures
        r@ == insert_sorted(d, list@),
    decreases list@.len(),
{
    let ghost pre: Seq<Device> = list@;
    let mut list = list;
    if list.len() == 0 {
        list.push(d);
        proof {
            assert(list@ =~= seq![d]);
        }
        list
    } else if device_before(&d, &list[0]) {
        list.insert(0, d);
        proof {
            assert(list@ =~= seq![d] + pre);
        }
        list
    } else {
        let head = list.remove(0);
        proof {
            assert(list@ =~= pre.subrange(1, pre.len() as int));
        }
        let mut rest = insert_device(list, d);
        rest.insert(0, head);
        proof {
            assert(rest@ =~= seq![pre[0]] + insert_sorted(d, pre.subrange(1, pre.len() as int)));
        }
        rest
    }
}

/// Sorts device entries into the catalog's listing order.
#[verifier::loop_isolation(false)]
fn sort_devices(list: Vec<Device>) -> (r: Vec<Device>)
    ensures
        r@ == sort_spec(list@),
{
    let ghost orig: Seq<Device> = list@;
    let mut remaining = list;
    let mut out: Vec<Device> = Vec::new();
    let ghost mut done: Seq<Device> = Seq::empty();
    while remaining.len() > 0
        invariant
            orig == done + remaining@,
            out@ == sort_spec(done),
        decreases remaining@.len(),
    {
        let ghost prev: Seq<Device> = remaining@;
        let d = remaining.remove(0);
        proof {
            assert(remaining@ =~= prev.subrange(1, prev.len() as int));
        }
        let ghost before: Seq<Device> = done;
        out = insert_device(out, d);
        proof {
            done = done.push(d);
            assert(done.drop_last() =~= before);
            assert(done.last() == d);
            assert(prev =~= seq![d] + remaining@);
            assert(orig =~= done + remaining@);
        }
    }
    proof {
        assert(orig =~= done);
    }
    out
}

/// Enumerates and deterministically orders the available input devices.
/// Built fresh on each listing request from the names the host reports;
/// nothing is cached across requests.
pub struct DeviceCatalog {
    devices: Vec<Device>,
}

impl View for DeviceCatalog {
    type V = Seq<Device>;

    closed spec fn view(&self) -> Seq<Device> {
        self.devices@
    }
}

impl DeviceCatalog {
    /// Builds the catalog from one fresh enumeration's reported names, in
    /// enumeration order. The listing is pinned to `sort_spec` of the
    /// entries: a deterministic function of the names alone.
    pub fn from_names(names: Vec<Option<String>>) -> (r: DeviceCatalog)
        ensures
            r@ == sort_spec(entries_spec(names@)),
    {
        let ghost orig: Seq<Option<String>> = names@;
        let mut names = names;
        let mut entries: Vec<Device> = Vec::new();
        while names.len() > 0
            invariant
                entries@.len() + names@.len() == orig.len(),
                names@ == orig.subrange(entries@.len() as int, orig.len() as int),
                entries@ == entries_spec(orig.subrange(0, entries@.len() as int)),
            decreases names@.len(),
        {
            let idx = entries.len();
            let nm = names.remove(0);
            proof {
                assert(names@ =~= orig.subrange(idx + 1, orig.len() as int));
            }
            entries.push(Device { name: nm, source_index: idx });
            proof {
                assert(entries@ =~= entries_spec(orig.subrange(0, idx + 1)));
            }
        }
        proof {
            assert(orig.subrange(0, orig.len() as int) =~= orig);
        }
        let devices = sort_devices(entries);
        DeviceCatalog { devices }
    }

    /// The outcome of an enumeration attempt: a failed enumeration is fatal
    /// (no capture can proceed without one) and is reported as
    /// `DeviceEnumerationError`; a successful one yields the ordered
    /// catalog.
    pub fn from_enumeration(names: Option<Vec<Option<String>>>) -> (r: Result<
        DeviceCatalog,
        CaptureError,
    >)
        ensures
            names is None ==> (r matches Err(e) && e == CaptureError::DeviceEnumerationError),
            names matches Some(ns) ==> (r matches Ok(c) && c@ == sort_spec(entries_spec(ns@))),
    {
        match names {
            None => Err(CaptureError::DeviceEnumerationError),
            Some(ns) => Ok(DeviceCatalog::from_names(ns)),
        }
    }

    /// The ordered device listing.
    pub fn list(&self) -> (r: &Vec<Device>)
        ensures
            r@ == self@,
    {
        &self.devices
    }

    /// How many devices the catalog holds.
    pub fn len(&self) -> (r: usize)
        ensures
            r == self@.len(),
    {
        self.devices.len()
    }

    /// Resolves a 1-based index into the ordered listing. Succeeds exactly
    /// on `1 <= index <= len`, and the result is pinned to the listing, so
    /// repeated calls resolve alike; anything else is `InvalidDeviceIndex`.
    pub fn resolve(&self, index: usize) -> (r: Result<&Device, CaptureError>)
        ensures
            index == 0 || index > self@.len() ==> (r matches Err(e) && e
                == CaptureError::InvalidDeviceIndex),
            1 <= index <= self@.len() ==> (r matches Ok(d) && *d == self@[index - 1]),
    {
        if index == 0 || index > self.devices.len() {
            Err(CaptureError::InvalidDeviceIndex)
        } else {
            Ok(&self.devices[index - 1])
        }
    }
}

} // verus!
