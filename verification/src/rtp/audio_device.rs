//! Audio devices: what they are called, which of their settings is used, and
//! how samples are cut into frames and buffered for them.
use crate::case::{ascii_lower_text, ascii_lowered};
use crate::number::{dec, parse_uint, push_dec, uint_of};
use crate::text::{chars_of, contains_text, has_text, same_text};
use vstd::prelude::*;

verus! {

// ---------------------------------------------------------------------------
// Descriptions
// ---------------------------------------------------------------------------

#[derive(Debug, Clone, Copy, PartialEq, Eq, Structural)]
pub enum DeviceType {
    Input,
    Output,
}

impl DeviceType {
    pub open spec fn text(self) -> Seq<char> {
        match self {
            DeviceType::Input => "input"@,
            DeviceType::Output => "output"@,
        }
    }

    pub fn to_string(&self) -> (r: String)
        ensures
            r@ == self.text(),
    {
        match self {
            DeviceType::Input => "input".to_owned(),
            DeviceType::Output => "output".to_owned(),
        }
    }
}

/// What is known of an audio device.
#[derive(Debug, Clone)]
pub struct AudioDeviceInfo {
    pub name: String,
    pub device_type: DeviceType,
    pub sample_rates: Vec<u32>,
    pub channels: Vec<u16>,
    pub is_default: bool,
}

/// Sample rates, each with its unit, and a comma and a space between each two.
pub open spec fn rates_text(rates: Seq<u32>) -> Seq<char>
    decreases rates.len(),
{
    if rates.len() == 0 {
        seq![]
    } else if rates.len() == 1 {
        dec(rates[0] as nat) + "Hz"@
    } else {
        rates_text(rates.drop_last()) + ", "@ + dec(rates.last() as nat) + "Hz"@
    }
}

/// Numbers of channels, with a comma and a space between each two.
pub open spec fn channels_text(cs: Seq<u16>) -> Seq<char>
    decreases cs.len(),
{
    if cs.len() == 0 {
        seq![]
    } else if cs.len() == 1 {
        dec(cs[0] as nat)
    } else {
        channels_text(cs.drop_last()) + ", "@ + dec(cs.last() as nat)
    }
}

/// A device for people to read.
pub open spec fn device_text(
    name: Seq<char>,
    is_default: bool,
    t: DeviceType,
    rates: Seq<u32>,
    channels: Seq<u16>,
) -> Seq<char> {
    name + (if is_default {
        " (default)"@
    } else {
        ""@
    }) + " ["@ + t.text() + "] rates=["@ + rates_text(rates) + "] channels=["@ + channels_text(
        channels,
    ) + "]"@
}

fn push_rates(s: &mut String, rates: &Vec<u32>)
    ensures
        final(s)@ == old(s)@ + rates_text(rates@),
{
    let n: usize = rates.len();
    let mut i: usize = 0;
    assert(s@ =~= old(s)@ + rates_text(rates@.take(0)));
    while i < n
        invariant
            n == rates@.len(),
            i <= n,
            s@ == old(s)@ + rates_text(rates@.take(i as int)),
        decreases n - i,
    {
        proof {
            assert(rates@.take(i + 1).drop_last() =~= rates@.take(i as int));
            assert(rates@.take(i + 1).last() == rates@[i as int]);
        }
        if i > 0 {
            s.append(", ");
        }
        push_dec(s, rates[i] as u64);
        s.append("Hz");
        assert(s@ =~= old(s)@ + rates_text(rates@.take(i + 1)));
        i = i + 1;
    }
    assert(rates@.take(n as int) =~= rates@);
}

fn push_channels(s: &mut String, cs: &Vec<u16>)
    ensures
        final(s)@ == old(s)@ + channels_text(cs@),
{
    let n: usize = cs.len();
    let mut i: usize = 0;
    assert(s@ =~= old(s)@ + channels_text(cs@.take(0)));
    while i < n
        invariant
            n == cs@.len(),
            i <= n,
            s@ == old(s)@ + channels_text(cs@.take(i as int)),
        decreases n - i,
    {
        proof {
            assert(cs@.take(i + 1).drop_last() =~= cs@.take(i as int));
            assert(cs@.take(i + 1).last() == cs@[i as int]);
        }
        if i > 0 {
            s.append(", ");
        }
        push_dec(s, cs[i] as u64);
        assert(s@ =~= old(s)@ + channels_text(cs@.take(i + 1)));
        i = i + 1;
    }
    assert(cs@.take(n as int) =~= cs@);
}

impl AudioDeviceInfo {
    /// The device for people to read.
    pub fn to_string(&self) -> (r: String)
        ensures
            r@ == device_text(
                self.name@,
                self.is_default,
                self.device_type,
                self.sample_rates@,
                self.channels@,
            ),
    {
        let mut s = self.name.clone();
        if self.is_default {
            s.append(" (default)");
        } else {
            s.append("");
        }
        s.append(" [");
        let t = self.device_type.to_string();
        s.append(t.as_str());
        s.append("] rates=[");
        push_rates(&mut s, &self.sample_rates);
        s.append("] channels=[");
        push_channels(&mut s, &self.channels);
        s.append("]");
        s
    }
}

// ---------------------------------------------------------------------------
// Selection
// ---------------------------------------------------------------------------

/// Which device is wanted.
#[derive(Debug)]
pub enum DeviceSelector {
    /// The default device of the system.
    Default,
    /// The first device with this in its name.
    ByName(String),
    /// The device at this place in the list.
    ByIndex(usize),
}

pub enum SelectorView {
    Default,
    ByName(Seq<char>),
    ByIndex(nat),
}

impl View for DeviceSelector {
    type V = SelectorView;

    open spec fn view(&self) -> SelectorView {
        match *self {
            DeviceSelector::Default => SelectorView::Default,
            DeviceSelector::ByName(s) => SelectorView::ByName(s@),
            DeviceSelector::ByIndex(i) => SelectorView::ByIndex(i as nat),
        }
    }
}

impl Clone for DeviceSelector {
    fn clone(&self) -> (r: Self)
        ensures
            r@ == self@,
    {
        match self {
            DeviceSelector::Default => DeviceSelector::Default,
            DeviceSelector::ByName(s) => DeviceSelector::ByName(s.clone()),
            DeviceSelector::ByIndex(i) => DeviceSelector::ByIndex(*i),
        }
    }
}

impl SelectorView {
    /// What an argument asks for: `default` in any case, a place in the list,
    /// or a name.
    pub open spec fn of_arg(arg: Seq<char>) -> SelectorView {
        if ascii_lowered(arg) == "default"@ {
            SelectorView::Default
        } else {
            match uint_of(arg, usize::MAX as nat) {
                Some(i) => SelectorView::ByIndex(i),
                None => SelectorView::ByName(arg),
            }
        }
    }

    pub open spec fn text(self) -> Seq<char> {
        match self {
            SelectorView::Default => "default"@,
            SelectorView::ByName(s) => "\""@ + s + "\""@,
            SelectorView::ByIndex(i) => "#"@ + dec(i),
        }
    }
}

impl DeviceSelector {
    /// What an argument asks for.
    pub fn from_arg(arg: &str) -> (r: Self)
        ensures
            r@ == SelectorView::of_arg(arg@),
    {
        let low = ascii_lower_text(arg);
        if same_text(low.as_str(), "default") {
            return DeviceSelector::Default;
        }
        let cs = chars_of(arg);
        match parse_uint(cs.as_slice(), usize::MAX as u64) {
            Some(i) => DeviceSelector::ByIndex(i as usize),
            None => DeviceSelector::ByName(arg.to_owned()),
        }
    }

    /// The selector for people to read.
    pub fn to_string(&self) -> (r: String)
        ensures
            r@ == self@.text(),
    {
        match self {
            DeviceSelector::Default => "default".to_owned(),
            DeviceSelector::ByName(name) => {
                let mut s = "\"".to_owned();
                s.append(name.as_str());
                s.append("\"");
                s
            },
            DeviceSelector::ByIndex(i) => {
                let mut s = "#".to_owned();
                push_dec(&mut s, *i as u64);
                s
            },
        }
    }
}

/// Which device of the system is meant.
#[derive(Debug, Clone, Copy, PartialEq, Eq, Structural)]
pub enum DevicePick {
    /// The default device of the system.
    SystemDefault,
    /// The device at this place in the list.
    Listed(usize),
    /// None of them.
    Missing,
}

/// Whether a device has a name, and the wanted text is in it.
pub open spec fn name_has(name: Option<String>, want: Seq<char>) -> bool {
    match name {
        Some(n) => contains_text(n@, want),
        None => false,
    }
}

/// The device that a selector picks from the list with the given names; a
/// device without a name is not found by name.
pub fn select_device(selector: &DeviceSelector, names: &[Option<String>]) -> (r: DevicePick)
    ensures
        match selector@ {
            SelectorView::Default => r == DevicePick::SystemDefault,
            SelectorView::ByIndex(i) => r == (if i < names@.len() {
                DevicePick::Listed(i as usize)
            } else {
                DevicePick::Missing
            }),
            SelectorView::ByName(want) => match r {
                DevicePick::SystemDefault => false,
                DevicePick::Listed(k) => k < names@.len() && name_has(names@[k as int], want)
                    && forall|j: int| 0 <= j < k ==> !name_has(#[trigger] names@[j], want),
                DevicePick::Missing => forall|j: int|
                    0 <= j < names@.len() ==> !name_has(#[trigger] names@[j], want),
            },
        },
{
    match selector {
        DeviceSelector::Default => DevicePick::SystemDefault,
        DeviceSelector::ByIndex(i) => if *i < names.len() {
            DevicePick::Listed(*i)
        } else {
            DevicePick::Missing
        },
        DeviceSelector::ByName(want) => {
            let n: usize = names.len();
            let mut k: usize = 0;
            while k < n
                invariant
                    n == names@.len(),
                    k <= n,
                    selector@ == SelectorView::ByName(want@),
                    forall|j: int| 0 <= j < k ==> !name_has(#[trigger] names@[j], want@),
                decreases n - k,
            {
                if let Some(name) = &names[k] {
                    let cs = chars_of(name.as_str());
                    if has_text(cs.as_slice(), want.as_str()) {
                        return DevicePick::Listed(k);
                    }
                }
                k = k + 1;
            }
            DevicePick::Missing
        },
    }
}

// ---------------------------------------------------------------------------
// Settings
// ---------------------------------------------------------------------------

/// A range of settings that a device supports.
#[derive(Debug, Clone, Copy, PartialEq, Eq, Structural)]
pub struct ConfigRange {
    pub min_rate: u32,
    pub max_rate: u32,
    pub channels: u16,
}

impl ConfigRange {
    /// Whether the range has that sample rate.
    pub open spec fn has_rate(self, rate: u32) -> bool {
        self.min_rate <= rate <= self.max_rate
    }
}

/// Whether one of the ranges has that rate, with that number of channels.
pub open spec fn supports(cfgs: Seq<ConfigRange>, rate: u32, channels: u16) -> bool {
    exists|i: int|
        0 <= i < cfgs.len() && (#[trigger] cfgs[i]).channels == channels && cfgs[i].has_rate(rate)
}

/// Whether one of the ranges has that rate.
pub open spec fn supports_rate(cfgs: Seq<ConfigRange>, rate: u32) -> bool {
    exists|i: int| 0 <= i < cfgs.len() && (#[trigger] cfgs[i]).has_rate(rate)
}

/// The index of the first range with that rate, or the number of ranges.
pub open spec fn first_with_rate(cfgs: Seq<ConfigRange>, rate: u32) -> int
    decreases cfgs.len(),
{
    if cfgs.len() == 0 {
        0
    } else if cfgs[0].has_rate(rate) {
        0
    } else {
        1 + first_with_rate(cfgs.skip(1), rate)
    }
}

/// The number of channels of the first range with that rate.
pub open spec fn channels_at(cfgs: Seq<ConfigRange>, rate: u32) -> u16 {
    cfgs[first_with_rate(cfgs, rate)].channels
}

/// The sample rates that are tried where the wanted one is not there, the best
/// first.
pub open spec fn standard_rates() -> Seq<u32> {
    seq![44100, 48000, 16000, 8000, 96000]
}

/// The first of the rates that a range has with that number of channels.
pub open spec fn pick_rate(cfgs: Seq<ConfigRange>, rates: Seq<u32>, channels: u16) -> Option<u32>
    decreases rates.len(),
{
    if rates.len() == 0 {
        None
    } else if supports(cfgs, rates[0], channels) {
        Some(rates[0])
    } else {
        pick_rate(cfgs, rates.skip(1), channels)
    }
}

/// The first of the rates that a range has.
pub open spec fn pick_any_rate(cfgs: Seq<ConfigRange>, rates: Seq<u32>) -> Option<u32>
    decreases rates.len(),
{
    if rates.len() == 0 {
        None
    } else if supports_rate(cfgs, rates[0]) {
        Some(rates[0])
    } else {
        pick_any_rate(cfgs, rates.skip(1))
    }
}

/// The rate and the channels for playing: the wanted rate and channels, the
/// wanted rate with any channels, a standard rate with the wanted channels, or
/// a standard rate with any channels.
pub open spec fn output_setting(cfgs: Seq<ConfigRange>, rate: u32, channels: u16) -> Option<
    (u32, u16),
> {
    if supports(cfgs, rate, channels) {
        Some((rate, channels))
    } else if supports_rate(cfgs, rate) {
        Some((rate, channels_at(cfgs, rate)))
    } else {
        match pick_rate(cfgs, standard_rates(), channels) {
            Some(r) => Some((r, channels)),
            None => match pick_any_rate(cfgs, standard_rates()) {
                Some(r) => Some((r, channels_at(cfgs, r))),
                None => None,
            },
        }
    }
}

/// The rate for recording: the wanted one, a standard rate with the wanted
/// channels, or any standard rate.
pub open spec fn input_setting(cfgs: Seq<ConfigRange>, rate: u32, channels: u16) -> Option<u32> {
    if supports(cfgs, rate, channels) {
        Some(rate)
    } else {
        match pick_rate(cfgs, standard_rates(), channels) {
            Some(r) => Some(r),
            None => pick_any_rate(cfgs, standard_rates()),
        }
    }
}

fn has_setting(cfgs: &[ConfigRange], rate: u32, channels: u16) -> (r: bool)
    ensures
        r == supports(cfgs@, rate, channels),
{
    let n: usize = cfgs.len();
    let mut i: usize = 0;
    while i < n
        invariant
            n == cfgs@.len(),
            i <= n,
            forall|j: int|
                0 <= j < i ==> !((#[trigger] cfgs@[j]).channels == channels && cfgs@[j].has_rate(
                    rate,
                )),
        decreases n - i,
    {
        let c = cfgs[i];
        if c.channels == channels && c.min_rate <= rate && c.max_rate >= rate {
            assert(cfgs@[i as int].has_rate(rate));
            return true;
        }
        i = i + 1;
    }
    false
}

fn rate_index(cfgs: &[ConfigRange], rate: u32) -> (r: usize)
    ensures
        r == first_with_rate(cfgs@, rate),
        r <= cfgs@.len(),
        r < cfgs@.len() <==> supports_rate(cfgs@, rate),
{
    let n: usize = cfgs.len();
    let mut i: usize = 0;
    assert(cfgs@.skip(0) =~= cfgs@);
    while i < n
        invariant
            n == cfgs@.len(),
            i <= n,
            first_with_rate(cfgs@, rate) == i + first_with_rate(cfgs@.skip(i as int), rate),
            forall|j: int| 0 <= j < i ==> !(#[trigger] cfgs@[j]).has_rate(rate),
        decreases n - i,
    {
        let c = cfgs[i];
        proof {
            assert(cfgs@.skip(i as int)[0] == c);
            assert(cfgs@.skip(i as int).skip(1) =~= cfgs@.skip(i + 1));
        }
        if c.min_rate <= rate && c.max_rate >= rate {
            assert(cfgs@[i as int].has_rate(rate));
            return i;
        }
        i = i + 1;
    }
    n
}

fn standard_rate(i: usize) -> (r: u32)
    requires
        i < 5,
    ensures
        r == standard_rates()[i as int],
{
    match i {
        0 => 44100,
        1 => 48000,
        2 => 16000,
        3 => 8000,
        _ => 96000,
    }
}

fn standard_with_channels(cfgs: &[ConfigRange], channels: u16) -> (r: Option<u32>)
    ensures
        r == pick_rate(cfgs@, standard_rates(), channels),
{
    let mut i: usize = 0;
    let ghost all = standard_rates();
    assert(all.skip(0) =~= all);
    while i < 5
        invariant
            i <= 5,
            all == standard_rates(),
            pick_rate(cfgs@, all, channels) == pick_rate(cfgs@, all.skip(i as int), channels),
        decreases 5 - i,
    {
        proof {
            assert(all.skip(i as int)[0] == all[i as int]);
            assert(all.skip(i as int).skip(1) =~= all.skip(i + 1));
        }
        let rate: u32 = standard_rate(i);
        if has_setting(cfgs, rate, channels) {
            return Some(rate);
        }
        i = i + 1;
    }
    None
}

fn standard_any(cfgs: &[ConfigRange]) -> (r: Option<u32>)
    ensures
        r == pick_any_rate(cfgs@, standard_rates()),
        r is Some ==> supports_rate(cfgs@, r->0),
{
    let mut i: usize = 0;
    let ghost all = standard_rates();
    assert(all.skip(0) =~= all);
    while i < 5
        invariant
            i <= 5,
            all == standard_rates(),
            pick_any_rate(cfgs@, all) == pick_any_rate(cfgs@, all.skip(i as int)),
        decreases 5 - i,
    {
        proof {
            assert(all.skip(i as int)[0] == all[i as int]);
            assert(all.skip(i as int).skip(1) =~= all.skip(i + 1));
        }
        let rate: u32 = standard_rate(i);
        if rate_index(cfgs, rate) < cfgs.len() {
            return Some(rate);
        }
        i = i + 1;
    }
    None
}

/// The rate and the channels for playing on a device with these settings.
pub fn find_supported_output_config(cfgs: &[ConfigRange], requested: u32, channels: u16) -> (r:
    Option<(u32, u16)>)
    ensures
        r == output_setting(cfgs@, requested, channels),
{
    if has_setting(cfgs, requested, channels) {
        return Some((requested, channels));
    }
    let k: usize = rate_index(cfgs, requested);
    if k < cfgs.len() {
        return Some((requested, cfgs[k].channels));
    }
    match standard_with_channels(cfgs, channels) {
        Some(rate) => Some((rate, channels)),
        None => match standard_any(cfgs) {
            Some(rate) => {
                let k: usize = rate_index(cfgs, rate);
                Some((rate, cfgs[k].channels))
            },
            None => None,
        },
    }
}

/// The rate for recording on a device with these settings.
pub fn find_supported_input_rate(cfgs: &[ConfigRange], requested: u32, channels: u16) -> (r: Option<
    u32,
>)
    ensures
        r == input_setting(cfgs@, requested, channels),
{
    if has_setting(cfgs, requested, channels) {
        return Some(requested);
    }
    match standard_with_channels(cfgs, channels) {
        Some(rate) => Some(rate),
        None => standard_any(cfgs),
    }
}

/// A setting that is chosen for playing is one that the device has.
pub proof fn law_output_setting_supported(cfgs: Seq<ConfigRange>, rate: u32, channels: u16)
    requires
        output_setting(cfgs, rate, channels) is Some,
    ensures
        ({
            let c = output_setting(cfgs, rate, channels)->0;
            supports(cfgs, c.0, c.1)
        }),
{
    lemma_pick_rate(cfgs, standard_rates(), channels);
    lemma_pick_any_rate(cfgs, standard_rates());
    let c = output_setting(cfgs, rate, channels)->0;
    if !supports(cfgs, rate, channels) && (supports_rate(cfgs, rate) || pick_rate(
        cfgs,
        standard_rates(),
        channels,
    ) is None) {
        lemma_first_with_rate(cfgs, c.0);
    }
}

proof fn lemma_first_with_rate(cfgs: Seq<ConfigRange>, rate: u32)
    requires
        supports_rate(cfgs, rate),
    ensures
        0 <= first_with_rate(cfgs, rate) < cfgs.len(),
        cfgs[first_with_rate(cfgs, rate)].has_rate(rate),
    decreases cfgs.len(),
{
    let i = choose|i: int| 0 <= i < cfgs.len() && (#[trigger] cfgs[i]).has_rate(rate);
    if !cfgs[0].has_rate(rate) {
        assert(cfgs.skip(1)[i - 1] == cfgs[i]);
        lemma_first_with_rate(cfgs.skip(1), rate);
    }
}

proof fn lemma_pick_rate(cfgs: Seq<ConfigRange>, rates: Seq<u32>, channels: u16)
    ensures
        pick_rate(cfgs, rates, channels) is Some ==> supports(
            cfgs,
            pick_rate(cfgs, rates, channels)->0,
            channels,
        ),
    decreases rates.len(),
{
    if rates.len() > 0 {
        lemma_pick_rate(cfgs, rates.skip(1), channels);
    }
}

proof fn lemma_pick_any_rate(cfgs: Seq<ConfigRange>, rates: Seq<u32>)
    ensures
        pick_any_rate(cfgs, rates) is Some ==> supports_rate(cfgs, pick_any_rate(cfgs, rates)->0),
    decreases rates.len(),
{
    if rates.len() > 0 {
        lemma_pick_any_rate(cfgs, rates.skip(1));
    }
}

// ---------------------------------------------------------------------------
// Listing
// ---------------------------------------------------------------------------

/// Whether the numbers stand in increasing order, each once.
pub open spec fn increasing(s: Seq<u16>) -> bool {
    forall|i: int, j: int| 0 <= i < j < s.len() ==> s[i] < s[j]
}

/// Whether a range has that number of channels.
pub open spec fn has_channels(cfgs: Seq<ConfigRange>, c: u16) -> bool {
    exists|i: int| 0 <= i < cfgs.len() && (#[trigger] cfgs[i]).channels == c
}

/// The usual sample rates that a device has, in increasing order.
pub open spec fn listed_rates(cfgs: Seq<ConfigRange>, rates: Seq<u32>) -> Seq<u32>
    decreases rates.len(),
{
    if rates.len() == 0 {
        seq![]
    } else if supports_rate(cfgs, rates.last()) {
        listed_rates(cfgs, rates.drop_last()).push(rates.last())
    } else {
        listed_rates(cfgs, rates.drop_last())
    }
}

/// The usual sample rates.
pub open spec fn usual_rates() -> Seq<u32> {
    seq![8000, 16000, 44100, 48000]
}

fn usual_rate(i: usize) -> (r: u32)
    requires
        i < 4,
    ensures
        r == usual_rates()[i as int],
{
    match i {
        0 => 8000,
        1 => 16000,
        2 => 44100,
        _ => 48000,
    }
}

fn insert_increasing(v: &mut Vec<u16>, c: u16)
    requires
        increasing(old(v)@),
    ensures
        increasing(final(v)@),
        forall|x: u16| #[trigger] final(v)@.contains(x) <==> (old(v)@.contains(x) || x == c),
{
    let n: usize = v.len();
    let mut k: usize = 0;
    while k < n && v[k] < c
        invariant
            n == v@.len(),
            v@ == old(v)@,
            k <= n,
            forall|j: int| 0 <= j < k ==> v@[j] < c,
        decreases n - k,
    {
        k = k + 1;
    }
    if k < n && v[k] == c {
        assert(v@[k as int] == c);
        return;
    }
    let ghost before = v@;
    v.insert(k, c);
    proof {
        assert(v@ =~= before.insert(k as int, c));
        assert forall|x: u16| #[trigger] v@.contains(x) <==> (before.contains(x) || x == c) by {
            if before.contains(x) {
                let i = choose|i: int| 0 <= i < before.len() && before[i] == x;
                if i < k {
                    assert(v@[i] == x);
                } else {
                    assert(v@[i + 1] == x);
                }
            }
            if x == c {
                assert(v@[k as int] == c);
            }
            if v@.contains(x) {
                let i = choose|i: int| 0 <= i < v@.len() && v@[i] == x;
                if i < k {
                    assert(before[i] == x);
                } else if i > k {
                    assert(before[i - 1] == x);
                }
            }
        }
    }
}

/// What is known of a device with that name and these settings, where
/// `default_name` is the name of the default device of the system.
pub fn describe_device(
    name: String,
    device_type: DeviceType,
    cfgs: &[ConfigRange],
    default_name: &Option<String>,
) -> (r: AudioDeviceInfo)
    ensures
        r.name@ == name@,
        r.device_type == device_type,
        r.sample_rates@ == listed_rates(cfgs@, usual_rates()),
        increasing(r.channels@),
        forall|c: u16| r.channels@.contains(c) <==> has_channels(cfgs@, c),
        r.is_default <==> (default_name is Some && (default_name->0)@ == name@),
{
    let mut sample_rates: Vec<u32> = Vec::new();
    let ghost all = usual_rates();
    let mut i: usize = 0;
    while i < 4
        invariant
            i <= 4,
            all == usual_rates(),
            sample_rates@ == listed_rates(cfgs@, all.take(i as int)),
        decreases 4 - i,
    {
        proof {
            assert(all.take(i + 1).drop_last() =~= all.take(i as int));
            assert(all.take(i + 1).last() == all[i as int]);
        }
        let rate: u32 = usual_rate(i);
        if rate_index(cfgs, rate) < cfgs.len() {
            sample_rates.push(rate);
        }
        i = i + 1;
    }
    assert(all.take(4) =~= all);
    let mut channels: Vec<u16> = Vec::new();
    let n: usize = cfgs.len();
    let mut k: usize = 0;
    while k < n
        invariant
            n == cfgs@.len(),
            k <= n,
            increasing(channels@),
            forall|c: u16| channels@.contains(c) <==> has_channels(cfgs@.take(k as int), c),
        decreases n - k,
    {
        let c: u16 = cfgs[k].channels;
        insert_increasing(&mut channels, c);
        proof {
            assert forall|x: u16|
                channels@.contains(x) <==> has_channels(cfgs@.take(k + 1), x) by {
                let t = cfgs@.take(k as int);
                let u = cfgs@.take(k + 1);
                assert(u[k as int].channels == c);
                if has_channels(t, x) {
                    let i = choose|i: int| 0 <= i < t.len() && (#[trigger] t[i]).channels == x;
                    assert(u[i].channels == x);
                }
                if has_channels(u, x) && x != c {
                    let i = choose|i: int| 0 <= i < u.len() && (#[trigger] u[i]).channels == x;
                    assert(t[i].channels == x);
                }
            }
        }
        k = k + 1;
    }
    assert(cfgs@.take(n as int) =~= cfgs@);
    let is_default = match default_name {
        Some(d) => *d == name,
        None => false,
    };
    AudioDeviceInfo { name, device_type, sample_rates, channels, is_default }
}

/// The devices of a build that knows no audio devices: none.
pub fn list_devices() -> (r: Vec<AudioDeviceInfo>)
    ensures
        r@.len() == 0,
{
    Vec::new()
}

/// The input devices of a build that knows no audio devices: none.
pub fn list_input_devices() -> (r: Vec<AudioDeviceInfo>)
    ensures
        r@.len() == 0,
{
    Vec::new()
}

/// The output devices of a build that knows no audio devices: none.
pub fn list_output_devices() -> (r: Vec<AudioDeviceInfo>)
    ensures
        r@.len() == 0,
{
    Vec::new()
}

/// Whether a build that knows no audio devices has one: it has not.
pub fn is_audio_available() -> (r: bool)
    ensures
        !r,
{
    false
}

/// Why a build that knows no audio devices has none.
pub fn audio_unavailable_reason() -> (r: &'static str)
    ensures
        r@
            == "Compiled without audio-device feature. Rebuild with: cargo build --features audio-device"@,
{
    "Compiled without audio-device feature. Rebuild with: cargo build --features audio-device"
}

// ---------------------------------------------------------------------------
// Frames
// ---------------------------------------------------------------------------

/// How audio is recorded and played.
#[derive(Debug, Clone, Copy)]
pub struct AudioConfig {
    pub sample_rate: u32,
    pub channels: u16,
    pub frame_size_ms: u32,
}

impl AudioConfig {
    /// Telephone audio: one channel at 8000 samples a second, in frames of
    /// twenty milliseconds.
    pub fn telephony() -> (r: Self)
        ensures
            r == (AudioConfig { sample_rate: 8000, channels: 1, frame_size_ms: 20 }),
    {
        AudioConfig { sample_rate: 8000, channels: 1, frame_size_ms: 20 }
    }

    /// The number of samples in a frame.
    pub fn samples_per_frame(&self) -> (r: usize)
        requires
            self.sample_rate * self.frame_size_ms <= usize::MAX,
        ensures
            r == self.sample_rate * self.frame_size_ms / 1000,
    {
        (self.sample_rate as usize * self.frame_size_ms as usize) / 1000
    }
}

impl Default for AudioConfig {
    fn default() -> (r: Self)
        ensures
            r == (AudioConfig { sample_rate: 8000, channels: 1, frame_size_ms: 20 }),
    {
        AudioConfig::telephony()
    }
}

/// A sample `n` times.
pub open spec fn repeated(x: i16, n: nat) -> Seq<i16> {
    Seq::new(n, |i: int| x)
}

/// Each sample once for each channel.
pub open spec fn spread(samples: Seq<i16>, channels: nat) -> Seq<i16>
    decreases samples.len(),
{
    if samples.len() == 0 {
        seq![]
    } else {
        spread(samples.drop_last(), channels) + repeated(samples.last(), channels)
    }
}

/// Each sample once for each channel.
pub fn mono_to_multi(samples: &[i16], channels: u16) -> (r: Vec<i16>)
    ensures
        r@ == spread(samples@, channels as nat),
{
    let mut out: Vec<i16> = Vec::new();
    let n: usize = samples.len();
    let mut i: usize = 0;
    while i < n
        invariant
            n == samples@.len(),
            i <= n,
            out@ == spread(samples@.take(i as int), channels as nat),
        decreases n - i,
    {
        let s: i16 = samples[i];
        let ghost before = out@;
        let mut k: u16 = 0;
        while k < channels
            invariant
                k <= channels,
                out@ =~= before + repeated(s, k as nat),
            decreases channels - k,
        {
            out.push(s);
            k = k + 1;
        }
        proof {
            assert(samples@.take(i + 1).drop_last() =~= samples@.take(i as int));
            assert(samples@.take(i + 1).last() == s);
        }
        i = i + 1;
    }
    assert(samples@.take(n as int) =~= samples@);
    out
}

} // verus!
