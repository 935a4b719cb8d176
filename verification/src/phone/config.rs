//! The settings of the phone.
use crate::rtp::codec::CodecType;
use crate::sip::message::opt_text;
use crate::text::{chars_of, same_text};
use vstd::prelude::*;

verus! {

// ---------------------------------------------------------------------------
// Speed dial
// ---------------------------------------------------------------------------

/// Whether `a` comes before `b` in the order of their characters.
pub open spec fn comes_before(a: Seq<char>, b: Seq<char>) -> bool
    decreases a.len(),
{
    if b.len() == 0 {
        false
    } else if a.len() == 0 {
        true
    } else if a[0] == b[0] {
        comes_before(a.skip(1), b.skip(1))
    } else {
        a[0] < b[0]
    }
}

/// The order of characters is total, and no text comes before itself.
pub proof fn lemma_order(a: Seq<char>, b: Seq<char>)
    ensures
        a == b <==> !comes_before(a, b) && !comes_before(b, a),
        comes_before(a, b) ==> !comes_before(b, a),
    decreases a.len(),
{
    if a.len() > 0 && b.len() > 0 {
        lemma_order(a.skip(1), b.skip(1));
        if a.skip(1) == b.skip(1) && a[0] == b[0] {
            assert forall|i: int| 0 <= i < a.len() implies a[i] == b[i] by {
                if i > 0 {
                    assert(a[i] == a.skip(1)[i - 1]);
                    assert(b[i] == b.skip(1)[i - 1]);
                }
            }
            assert(a.len() == a.skip(1).len() + 1);
            assert(a =~= b);
        }
    } else if a.len() == 0 && b.len() == 0 {
        assert(a =~= b);
    }
}

/// What comes before another that comes before a third comes before the third.
pub proof fn lemma_order_transitive(a: Seq<char>, b: Seq<char>, c: Seq<char>)
    requires
        comes_before(a, b),
        comes_before(b, c),
    ensures
        comes_before(a, c),
    decreases a.len(),
{
    if a.len() > 0 && a[0] == b[0] && b[0] == c[0] {
        lemma_order_transitive(a.skip(1), b.skip(1), c.skip(1));
    }
}

fn is_before(a: &str, b: &str) -> (r: bool)
    ensures
        r == comes_before(a@, b@),
{
    let x = chars_of(a);
    let y = chars_of(b);
    let mut i: usize = 0;
    assert(x@.skip(0) =~= x@);
    assert(y@.skip(0) =~= y@);
    while i < x.len() && i < y.len()
        invariant
            i <= x@.len(),
            i <= y@.len(),
            comes_before(a@, b@) == comes_before(x@.skip(i as int), y@.skip(i as int)),
        decreases x@.len() - i,
    {
        if x[i] != y[i] {
            return x[i] < y[i];
        }
        assert(x@.skip(i as int).skip(1) =~= x@.skip(i + 1));
        assert(y@.skip(i as int).skip(1) =~= y@.skip(i + 1));
        i = i + 1;
    }
    i < y.len()
}

/// Slots and the addresses that they stand for.
pub type DialList = Seq<(Seq<char>, Seq<char>)>;

/// The address in a slot.
pub open spec fn dialled(ds: DialList, slot: Seq<char>) -> Option<Seq<char>>
    decreases ds.len(),
{
    if ds.len() == 0 {
        None
    } else if ds[0].0 == slot {
        Some(ds[0].1)
    } else {
        dialled(ds.skip(1), slot)
    }
}

/// Whether the slots stand in order, and none twice.
pub open spec fn in_slot_order(ds: DialList) -> bool {
    forall|i: int, j: int|
        0 <= i < j < ds.len() ==> comes_before((#[trigger] ds[i]).0, (#[trigger] ds[j]).0)
}

/// The number of slots that come before `slot`.
pub open spec fn slot_position(ds: DialList, slot: Seq<char>) -> nat
    decreases ds.len(),
{
    if ds.len() == 0 || !comes_before(ds[0].0, slot) {
        0
    } else {
        1 + slot_position(ds.skip(1), slot)
    }
}

pub proof fn lemma_slot_position(ds: DialList, slot: Seq<char>)
    ensures
        slot_position(ds, slot) <= ds.len(),
        forall|i: int|
            0 <= i < slot_position(ds, slot) ==> comes_before((#[trigger] ds[i]).0, slot),
        slot_position(ds, slot) < ds.len() ==> !comes_before(
            ds[slot_position(ds, slot) as int].0,
            slot,
        ),
    decreases ds.len(),
{
    if ds.len() > 0 && comes_before(ds[0].0, slot) {
        let t = ds.skip(1);
        lemma_slot_position(t, slot);
        assert forall|i: int| 0 <= i < slot_position(ds, slot) implies comes_before(
            (#[trigger] ds[i]).0,
            slot,
        ) by {
            if i > 0 {
                assert(t[i - 1] == ds[i]);
            }
        }
        if slot_position(t, slot) < t.len() {
            assert(t[slot_position(t, slot) as int] == ds[slot_position(ds, slot) as int]);
        }
    }
}

/// Whether the slot at its position is `slot` itself.
pub open spec fn has_slot(ds: DialList, slot: Seq<char>) -> bool {
    slot_position(ds, slot) < ds.len() && ds[slot_position(ds, slot) as int].0 == slot
}

/// The list with `uri` in `slot`.
pub open spec fn with_dial(ds: DialList, slot: Seq<char>, uri: Seq<char>) -> DialList {
    let k = slot_position(ds, slot) as int;
    if has_slot(ds, slot) {
        ds.update(k, (slot, uri))
    } else {
        ds.insert(k, (slot, uri))
    }
}

/// The list without `slot`.
pub open spec fn without_dial(ds: DialList, slot: Seq<char>) -> DialList {
    if has_slot(ds, slot) {
        ds.remove(slot_position(ds, slot) as int)
    } else {
        ds
    }
}

/// In a list in order, an address is found at the position of its slot.
proof fn lemma_dialled(ds: DialList, slot: Seq<char>)
    requires
        in_slot_order(ds),
    ensures
        dialled(ds, slot) == (if has_slot(ds, slot) {
            Some(ds[slot_position(ds, slot) as int].1)
        } else {
            None
        }),
    decreases ds.len(),
{
    if ds.len() > 0 {
        let t = ds.skip(1);
        assert(in_slot_order(t)) by {
            assert forall|i: int, j: int| 0 <= i < j < t.len() implies comes_before(
                (#[trigger] t[i]).0,
                (#[trigger] t[j]).0,
            ) by {
                assert(t[i] == ds[i + 1]);
                assert(t[j] == ds[j + 1]);
            }
        }
        lemma_order(ds[0].0, slot);
        lemma_dialled(t, slot);
        if comes_before(ds[0].0, slot) {
            let k = slot_position(t, slot);
            if k < t.len() {
                assert(t[k as int] == ds[(k + 1) as int]);
            }
        } else if ds[0].0 != slot {
            // The slots behind the first come after it, and so after `slot`.
            assert forall|i: int| 0 <= i < t.len() implies comes_before(
                ds[0].0,
                (#[trigger] t[i]).0,
            ) by {
                assert(t[i] == ds[i + 1]);
            }
            lemma_absent(t, slot, ds[0].0);
        }
    }
}

/// A slot is not in a list whose slots all come after one that comes after it.
proof fn lemma_absent(ds: DialList, slot: Seq<char>, bound: Seq<char>)
    ensures
        comes_before(slot, bound) && (forall|i: int|
            0 <= i < ds.len() ==> comes_before(bound, (#[trigger] ds[i]).0)) ==> dialled(
            ds,
            slot,
        ) is None,
    decreases ds.len(),
{
    if comes_before(slot, bound) && (forall|i: int|
        0 <= i < ds.len() ==> comes_before(bound, (#[trigger] ds[i]).0)) {
        if ds.len() > 0 {
            let t = ds.skip(1);
            assert(comes_before(bound, ds[0].0));
            lemma_order_transitive(slot, bound, ds[0].0);
            lemma_order(slot, ds[0].0);
            assert forall|i: int| 0 <= i < t.len() implies comes_before(
                bound,
                (#[trigger] t[i]).0,
            ) by {
                assert(t[i] == ds[i + 1]);
            }
            lemma_absent(t, slot, bound);
        }
    }
}

/// A slot is found with what was put into it last; other slots stay as they
/// were, and the list stays in order.
pub proof fn law_dial_set_get(ds: DialList, slot: Seq<char>, uri: Seq<char>, other: Seq<char>)
    requires
        in_slot_order(ds),
    ensures
        in_slot_order(with_dial(ds, slot, uri)),
        dialled(with_dial(ds, slot, uri), slot) == Some(uri),
        other != slot ==> dialled(with_dial(ds, slot, uri), other) == dialled(ds, other),
{
    let k = slot_position(ds, slot) as int;
    let r = with_dial(ds, slot, uri);
    lemma_slot_position(ds, slot);
    if !has_slot(ds, slot) {
        if k < ds.len() {
            lemma_order(ds[k].0, slot);
        }
        assert forall|i: int, j: int| 0 <= i < j < r.len() implies comes_before(
            (#[trigger] r[i]).0,
            (#[trigger] r[j]).0,
        ) by {
            if i == k {
                assert(r[j] == ds[j - 1]);
                if j - 1 > k {
                    lemma_order_transitive(slot, ds[k].0, ds[j - 1].0);
                }
            } else if i > k {
                assert(r[i] == ds[i - 1]);
                assert(r[j] == ds[j - 1]);
            } else {
                assert(r[i] == ds[i]);
                if j > k {
                    assert(r[j] == ds[j - 1]);
                } else if j < k {
                    assert(r[j] == ds[j]);
                }
            }
        }
        lemma_dialled_insert(ds, k, slot, uri, slot);
        lemma_dialled_insert(ds, k, slot, uri, other);
    } else {
        assert forall|i: int, j: int| 0 <= i < j < r.len() implies comes_before(
            (#[trigger] r[i]).0,
            (#[trigger] r[j]).0,
        ) by {
            assert(comes_before(ds[i].0, ds[j].0));
        }
        lemma_dialled_update(ds, k, slot, uri, slot);
        lemma_dialled_update(ds, k, slot, uri, other);
    }
}

proof fn lemma_dialled_insert(
    ds: DialList,
    k: int,
    slot: Seq<char>,
    uri: Seq<char>,
    want: Seq<char>,
)
    requires
        0 <= k <= ds.len(),
        forall|i: int| 0 <= i < k ==> comes_before((#[trigger] ds[i]).0, slot),
    ensures
        dialled(ds.insert(k, (slot, uri)), want) == (if want == slot {
            Some(uri)
        } else {
            dialled(ds, want)
        }),
    decreases ds.len(),
{
    let r = ds.insert(k, (slot, uri));
    if k == 0 {
        assert(r.skip(1) =~= ds);
    } else {
        let t = ds.skip(1);
        assert(r[0] == ds[0]);
        assert(r.skip(1) =~= t.insert(k - 1, (slot, uri)));
        assert forall|i: int| 0 <= i < k - 1 implies comes_before((#[trigger] t[i]).0, slot) by {
            assert(t[i] == ds[i + 1]);
        }
        lemma_order(ds[0].0, slot);
        lemma_dialled_insert(t, k - 1, slot, uri, want);
    }
}

proof fn lemma_dialled_update(
    ds: DialList,
    k: int,
    slot: Seq<char>,
    uri: Seq<char>,
    want: Seq<char>,
)
    requires
        0 <= k < ds.len(),
        ds[k].0 == slot,
        forall|i: int| 0 <= i < k ==> comes_before((#[trigger] ds[i]).0, slot),
    ensures
        dialled(ds.update(k, (slot, uri)), want) == (if want == slot {
            Some(uri)
        } else {
            dialled(ds, want)
        }),
    decreases ds.len(),
{
    let r = ds.update(k, (slot, uri));
    if k == 0 {
        assert(r.skip(1) =~= ds.skip(1));
    } else {
        let t = ds.skip(1);
        assert(r[0] == ds[0]);
        assert(r.skip(1) =~= t.update(k - 1, (slot, uri)));
        assert forall|i: int| 0 <= i < k - 1 implies comes_before((#[trigger] t[i]).0, slot) by {
            assert(t[i] == ds[i + 1]);
        }
        lemma_order(ds[0].0, slot);
        lemma_dialled_update(t, k - 1, slot, uri, want);
    }
}

proof fn lemma_dialled_remove(ds: DialList, k: int, want: Seq<char>)
    requires
        0 <= k < ds.len(),
        want != ds[k].0,
    ensures
        dialled(ds.remove(k), want) == dialled(ds, want),
    decreases ds.len(),
{
    let r = ds.remove(k);
    if k == 0 {
        assert(r =~= ds.skip(1));
    } else {
        assert(r[0] == ds[0]);
        assert(r.skip(1) =~= ds.skip(1).remove(k - 1));
        assert(ds.skip(1)[k - 1] == ds[k]);
        lemma_dialled_remove(ds.skip(1), k - 1, want);
    }
}

/// A slot that was removed is found no more; other slots stay as they were, and
/// the list stays in order.
pub proof fn law_dial_remove(ds: DialList, slot: Seq<char>, other: Seq<char>)
    requires
        in_slot_order(ds),
    ensures
        in_slot_order(without_dial(ds, slot)),
        dialled(without_dial(ds, slot), slot) is None,
        other != slot ==> dialled(without_dial(ds, slot), other) == dialled(ds, other),
{
    let k = slot_position(ds, slot) as int;
    let r = without_dial(ds, slot);
    lemma_slot_position(ds, slot);
    lemma_dialled(ds, slot);
    if has_slot(ds, slot) {
        assert forall|i: int, j: int| 0 <= i < j < r.len() implies comes_before(
            (#[trigger] r[i]).0,
            (#[trigger] r[j]).0,
        ) by {
            let a = if i < k { i } else { i + 1 };
            let b = if j < k { j } else { j + 1 };
            assert(r[i] == ds[a]);
            assert(r[j] == ds[b]);
        }
        assert forall|i: int| 0 <= i < r.len() implies (#[trigger] r[i]).0 != slot by {
            let a = if i < k { i } else { i + 1 };
            assert(r[i] == ds[a]);
            lemma_order(ds[a].0, slot);
            if a > k {
                assert(comes_before(ds[k].0, ds[a].0));
            }
        }
        lemma_not_dialled(r, slot);
        if other != slot {
            lemma_dialled_remove(ds, k, other);
        }
    }
}

proof fn lemma_not_dialled(ds: DialList, slot: Seq<char>)
    requires
        forall|i: int| 0 <= i < ds.len() ==> (#[trigger] ds[i]).0 != slot,
    ensures
        dialled(ds, slot) is None,
    decreases ds.len(),
{
    if ds.len() > 0 {
        let t = ds.skip(1);
        assert forall|i: int| 0 <= i < t.len() implies (#[trigger] t[i]).0 != slot by {
            assert(t[i] == ds[i + 1]);
        }
        lemma_not_dialled(t, slot);
    }
}

/// Whether a text is the name of a slot: one digit.
pub open spec fn is_slot(s: Seq<char>) -> bool {
    s.len() == 1 && '0' <= s[0] <= '9'
}

pub fn is_slot_name(s: &str) -> (r: bool)
    ensures
        r == is_slot(s@),
{
    let cs = chars_of(s);
    cs.len() == 1 && '0' <= cs[0] && cs[0] <= '9'
}

/// Addresses by slot.
#[derive(Debug)]
pub struct SpeedDials {
    entries: Vec<(String, String)>,
}

impl View for SpeedDials {
    type V = DialList;

    closed spec fn view(&self) -> DialList {
        Seq::new(self.entries@.len(), |i: int| (self.entries@[i].0@, self.entries@[i].1@))
    }
}

impl SpeedDials {
    /// What holds of every list: the slots stand in order, and none twice.
    pub open spec fn wf(&self) -> bool {
        in_slot_order(self@)
    }

    pub fn new() -> (r: Self)
        ensures
            r.wf(),
            r@ == DialList::empty(),
    {
        let r = SpeedDials { entries: Vec::new() };
        assert(r@ =~= DialList::empty());
        r
    }

    /// The number of slots that are in use.
    pub fn len(&self) -> (r: usize)
        ensures
            r == self@.len(),
    {
        self.entries.len()
    }

    /// The slot and the address at a position.
    pub fn entry(&self, i: usize) -> (r: (&str, &str))
        requires
            i < self@.len(),
        ensures
            (r.0@, r.1@) == self@[i as int],
    {
        (self.entries[i].0.as_str(), self.entries[i].1.as_str())
    }

    fn position(&self, slot: &str) -> (r: usize)
        ensures
            r == slot_position(self@, slot@),
            r <= self@.len(),
    {
        let n: usize = self.entries.len();
        let mut i: usize = 0;
        let ghost all = self@;
        assert(all.skip(0) =~= all);
        while i < n && is_before(self.entries[i].0.as_str(), slot)
            invariant
                n == self.entries@.len(),
                all == self@,
                all.len() == n,
                i <= n,
                slot_position(all, slot@) == i + slot_position(all.skip(i as int), slot@),
            decreases n - i,
        {
            assert(all.skip(i as int)[0] == all[i as int]);
            assert(all.skip(i as int).skip(1) =~= all.skip(i + 1));
            i = i + 1;
        }
        if i < n {
            assert(all.skip(i as int)[0] == all[i as int]);
        }
        i
    }

    /// The address in a slot.
    pub fn get(&self, slot: &str) -> (r: Option<&str>)
        requires
            self.wf(),
        ensures
            match r {
                Some(u) => dialled(self@, slot@) == Some(u@),
                None => dialled(self@, slot@) is None,
            },
    {
        let k: usize = self.position(slot);
        proof {
            lemma_dialled(self@, slot@);
        }
        if k < self.entries.len() && same_text(self.entries[k].0.as_str(), slot) {
            Some(self.entries[k].1.as_str())
        } else {
            None
        }
    }

    /// Puts an address into a slot, in place of the one that may be there.
    pub fn set(&mut self, slot: &str, uri: &str)
        requires
            old(self).wf(),
        ensures
            final(self).wf(),
            final(self)@ == with_dial(old(self)@, slot@, uri@),
    {
        let k: usize = self.position(slot);
        let ghost before = self@;
        proof {
            law_dial_set_get(self@, slot@, uri@, slot@);
        }
        let item = (slot.to_owned(), uri.to_owned());
        if k < self.entries.len() && same_text(self.entries[k].0.as_str(), slot) {
            self.entries.set(k, item);
        } else {
            self.entries.insert(k, item);
        }
        assert(self@ =~= with_dial(before, slot@, uri@));
    }

    /// Empties a slot; says whether there was an address in it.
    pub fn remove(&mut self, slot: &str) -> (r: bool)
        requires
            old(self).wf(),
        ensures
            final(self).wf(),
            r == (dialled(old(self)@, slot@) is Some),
            final(self)@ == without_dial(old(self)@, slot@),
    {
        let k: usize = self.position(slot);
        let ghost before = self@;
        proof {
            law_dial_remove(self@, slot@, slot@);
            lemma_dialled(self@, slot@);
        }
        if k < self.entries.len() && same_text(self.entries[k].0.as_str(), slot) {
            let _gone = self.entries.remove(k);
            assert(self@ =~= without_dial(before, slot@));
            true
        } else {
            false
        }
    }
}

// ---------------------------------------------------------------------------
// Settings
// ---------------------------------------------------------------------------

/// Settings. Each may be missing; what the phone does without it is its default.
#[derive(Debug)]
pub struct SiprConfig {
    /// The name of the user.
    pub user: Option<String>,
    /// The address of the server.
    pub server: Option<String>,
    /// The password of the user.
    pub password: Option<String>,
    /// The codec for audio.
    pub codec: Option<CodecType>,
    /// The device for audio input: its name or its index.
    pub input_device: Option<String>,
    /// The device for audio output: its name or its index.
    pub output_device: Option<String>,
    /// The port of this end; 0 lets the system choose.
    pub port: Option<u16>,
    /// Whether output is without colours.
    pub no_color: Option<bool>,
    /// Whether messages are traced during calls.
    pub sniff: Option<bool>,
    /// Where calls are recorded.
    pub record_path: Option<String>,
    /// The number of commands to remember.
    pub max_history: Option<usize>,
    /// Addresses by slot.
    pub speed_dials: Option<SpeedDials>,
}

impl Default for SiprConfig {
    fn default() -> (r: Self)
        ensures
            r == (SiprConfig {
                user: None,
                server: None,
                password: None,
                codec: None,
                input_device: None,
                output_device: None,
                port: None,
                no_color: None,
                sniff: None,
                record_path: None,
                max_history: None,
                speed_dials: None,
            }),
    {
        SiprConfig {
            user: None,
            server: None,
            password: None,
            codec: None,
            input_device: None,
            output_device: None,
            port: None,
            no_color: None,
            sniff: None,
            record_path: None,
            max_history: None,
            speed_dials: None,
        }
    }
}

/// A file in which settings may stand.
#[derive(Debug)]
pub enum ConfigFile {
    /// There is no such file.
    Missing,
    /// The file could not be read.
    Unreadable,
    /// The file does not hold settings.
    Invalid,
    /// The file holds these settings.
    Settings(SiprConfig),
}

/// Whether a file settles which settings hold.
pub open spec fn decides(f: ConfigFile) -> bool {
    f is Invalid || f is Settings
}

impl ConfigFile {
    /// Whether the file settles which settings hold, so that none after it is
    /// looked at.
    pub fn decides(&self) -> (r: bool)
        ensures
            r == decides(*self),
    {
        match self {
            ConfigFile::Invalid => true,
            ConfigFile::Settings(_) => true,
            ConfigFile::Missing => false,
            ConfigFile::Unreadable => false,
        }
    }
}

/// The position of the first file that settles which settings hold.
pub open spec fn deciding(files: Seq<ConfigFile>) -> nat
    decreases files.len(),
{
    if files.len() == 0 || decides(files[0]) {
        0
    } else {
        1 + deciding(files.skip(1))
    }
}

impl SiprConfig {
    /// What holds of all settings.
    pub open spec fn wf(&self) -> bool {
        self.speed_dials is Some ==> self.speed_dials->0.wf()
    }

    /// The settings of the first file that is there and can be read, and the
    /// defaults where there is none such, or where it holds no settings.
    pub fn load(files: Vec<ConfigFile>) -> (r: Self)
        ensures
            ({
                let k = deciding(files@) as int;
                if k < files@.len() && files@[k] is Settings {
                    r == files@[k]->Settings_0
                } else {
                    r == (SiprConfig {
                        user: None,
                        server: None,
                        password: None,
                        codec: None,
                        input_device: None,
                        output_device: None,
                        port: None,
                        no_color: None,
                        sniff: None,
                        record_path: None,
                        max_history: None,
                        speed_dials: None,
                    })
                }
            }),
    {
        let mut rest = files;
        let ghost all = files@;
        let ghost mut gone: nat = 0;
        assert(all.skip(0) =~= all);
        while rest.len() > 0
            invariant
                all == files@,
                gone <= all.len(),
                rest@ == all.skip(gone as int),
                deciding(all) == gone + deciding(all.skip(gone as int)),
            decreases rest@.len(),
        {
            assert(rest@[0] == all[gone as int]);
            let first = rest.remove(0);
            match first {
                ConfigFile::Settings(c) => {
                    return c;
                },
                ConfigFile::Invalid => {
                    return SiprConfig::default();
                },
                ConfigFile::Missing => {},
                ConfigFile::Unreadable => {},
            }
            proof {
                assert(all.skip(gone as int).skip(1) =~= all.skip(gone as int + 1));
                assert(rest@ =~= all.skip(gone as int + 1));
                gone = gone + 1;
            }
        }
        SiprConfig::default()
    }

    /// The settings that a new file begins with.
    pub fn template() -> (r: Self)
        ensures
            r.wf(),
            r.user is None,
            r.server is None,
            r.password is None,
            r.codec == Some(CodecType::Pcmu),
            r.input_device is None,
            r.output_device is None,
            r.port == Some(0u16),
            r.no_color == Some(false),
            r.sniff == Some(false),
            r.record_path is None,
            r.max_history == Some(1000usize),
            r.speed_dials is Some,
            r.speed_dials->0@ == seq![
                ("1"@, "sip:alice@example.com"@),
                ("2"@, "sip:bob@example.com"@),
            ],
    {
        let mut dials = SpeedDials::new();
        dials.set("1", "sip:alice@example.com");
        dials.set("2", "sip:bob@example.com");
        proof {
            reveal_strlit("1");
            reveal_strlit("2");
            reveal_with_fuel(comes_before, 2);
            reveal_with_fuel(slot_position, 2);
            let one = with_dial(DialList::empty(), "1"@, "sip:alice@example.com"@);
            assert(one =~= seq![("1"@, "sip:alice@example.com"@)]);
            assert(comes_before("1"@, "2"@));
            assert(one.skip(1).len() == 0);
            assert(slot_position(one, "2"@) == 1);
            assert(dials@ =~= seq![
                ("1"@, "sip:alice@example.com"@),
                ("2"@, "sip:bob@example.com"@),
            ]);
        }
        SiprConfig {
            codec: Some(CodecType::Pcmu),
            port: Some(0),
            no_color: Some(false),
            sniff: Some(false),
            max_history: Some(1000),
            speed_dials: Some(dials),
            user: None,
            server: None,
            password: None,
            input_device: None,
            output_device: None,
            record_path: None,
        }
    }

    /// The number of commands to remember; 1000 where it is not set.
    pub fn history_limit(&self) -> (r: usize)
        ensures
            r == (match self.max_history {
                Some(n) => n,
                None => 1000,
            }),
    {
        match self.max_history {
            Some(n) => n,
            None => 1000,
        }
    }

    /// The address in a slot.
    pub open spec fn spec_speed_dial(&self, slot: Seq<char>) -> Option<Seq<char>> {
        match self.speed_dials {
            Some(d) => if is_slot(slot) {
                dialled(d@, slot)
            } else {
                None
            },
            None => None,
        }
    }

    /// The address in a slot; a text that names no slot has none.
    pub fn speed_dial(&self, slot: &str) -> (r: Option<String>)
        requires
            self.wf(),
        ensures
            opt_text(r) == self.spec_speed_dial(slot@),
    {
        if !is_slot_name(slot) {
            return None;
        }
        match &self.speed_dials {
            Some(d) => match d.get(slot) {
                Some(u) => Some(u.to_owned()),
                None => None,
            },
            None => None,
        }
    }

    /// Whom to call: the address in the slot that `who` names, or `who` itself
    /// where it names none that is in use.
    pub fn call_target(&self, who: &str) -> (r: String)
        requires
            self.wf(),
        ensures
            r@ == (match self.spec_speed_dial(who@) {
                Some(u) => u,
                None => who@,
            }),
    {
        match self.speed_dial(who) {
            Some(u) => u,
            None => who.to_owned(),
        }
    }

    /// Puts an address into a slot; says whether there is such a slot.
    pub fn set_speed_dial(&mut self, slot: &str, uri: &str) -> (r: bool)
        requires
            old(self).wf(),
        ensures
            final(self).wf(),
            r == is_slot(slot@),
            r ==> final(self).speed_dials is Some && final(self).speed_dials->0@ == with_dial(
                match old(self).speed_dials {
                    Some(d) => d@,
                    None => DialList::empty(),
                },
                slot@,
                uri@,
            ),
            *final(self) == (SiprConfig { speed_dials: final(self).speed_dials, ..*old(self) }),
            !r ==> *final(self) == *old(self),
    {
        if !is_slot_name(slot) {
            return false;
        }
        let mut dials = match self.speed_dials.take() {
            Some(d) => d,
            None => SpeedDials::new(),
        };
        dials.set(slot, uri);
        self.speed_dials = Some(dials);
        true
    }

    /// Empties a slot; says whether there was an address in it.
    pub fn remove_speed_dial(&mut self, slot: &str) -> (r: bool)
        requires
            old(self).wf(),
        ensures
            final(self).wf(),
            r == (old(self).speed_dials is Some && dialled(
                old(self).speed_dials->0@,
                slot@,
            ) is Some),
            match final(self).speed_dials {
                Some(d) => old(self).speed_dials is Some && d@ == without_dial(
                    old(self).speed_dials->0@,
                    slot@,
                ),
                None => old(self).speed_dials is None,
            },
            *final(self) == (SiprConfig { speed_dials: final(self).speed_dials, ..*old(self) }),
    {
        let mut dials = match self.speed_dials.take() {
            Some(d) => d,
            None => {
                return false;
            },
        };
        let r = dials.remove(slot);
        self.speed_dials = Some(dials);
        r
    }
}

} // verus!
