//! The radio settings menu: a cursor over four fields and a draft of their
//! values, written to the radio settings only when the menu is saved.
use vstd::prelude::*;
use vstd::string::*;
use vstd::utf8::*;

use crate::display::{ScreenTransition, UIEvent};
use crate::settings::{Bandwidth, CodingRate, RadioSettings, SpreadingFactor};
use crate::text::{row_bytes, row_new, row_push_str, str_from_utf8};

verus! {

// ── Editable fields ──────────────────────────────────────────────────────────

/// The fields of the menu, in display order.
#[derive(Clone, Copy, Debug, PartialEq, Eq, Structural)]
pub enum Field {
    SpreadingFactor,
    TxPower,
    Bandwidth,
    CodingRate,
}

/// The number of fields.
pub const FIELD_COUNT: usize = 4;

pub open spec fn spec_field_at(i: int) -> Field {
    if i == 0 {
        Field::SpreadingFactor
    } else if i == 1 {
        Field::TxPower
    } else if i == 2 {
        Field::Bandwidth
    } else {
        Field::CodingRate
    }
}

/// The field shown on row `i`.
pub fn field_at(i: usize) -> (r: Field)
    requires
        i < FIELD_COUNT,
    ensures
        r == spec_field_at(i as int),
{
    if i == 0 {
        Field::SpreadingFactor
    } else if i == 1 {
        Field::TxPower
    } else if i == 2 {
        Field::Bandwidth
    } else {
        Field::CodingRate
    }
}

/// The key shown for the field on row `i`.
pub open spec fn row_key(i: int) -> Seq<char> {
    if i == 0 {
        "SF "@
    } else if i == 1 {
        "dBm"@
    } else if i == 2 {
        "BW "@
    } else {
        "CR "@
    }
}

/// The screen change the menu asks for on `event`: back to chat on the back
/// and menu buttons.
pub open spec fn menu_transition(event: UIEvent) -> Option<ScreenTransition> {
    match event {
        UIEvent::NavBack => Some(ScreenTransition::Back),
        UIEvent::NavMenu => Some(ScreenTransition::Back),
        _ => None,
    }
}

/// Highest transmit power the menu offers (dBm).
pub const MAX_TX_DBM: i32 = 22;
/// Lowest transmit power the menu offers (dBm).
pub const MIN_TX_DBM: i32 = 2;

// ── Menu state ───────────────────────────────────────────────────────────────

/// The menu's cursor and draft settings.
pub struct MenuScreen {
    cursor: usize,
    sf: SpreadingFactor,
    tx_dbm: i32,
    bw: Bandwidth,
    cr: CodingRate,
}

/// What the menu asks for after an event.
pub struct MenuResponse {
    /// The screen to go to, if any.
    pub transition: Option<ScreenTransition>,
    /// Whether the draft is to be saved into the radio settings.
    pub commit: bool,
}

impl MenuScreen {
    pub closed spec fn cursor(&self) -> usize {
        self.cursor
    }

    pub closed spec fn sf(&self) -> SpreadingFactor {
        self.sf
    }

    pub closed spec fn tx_dbm(&self) -> i32 {
        self.tx_dbm
    }

    pub closed spec fn bw(&self) -> Bandwidth {
        self.bw
    }

    pub closed spec fn cr(&self) -> CodingRate {
        self.cr
    }

    pub open spec fn wf(&self) -> bool {
        self.cursor() < FIELD_COUNT
    }

    /// A menu on its first row, with a draft taken from `current`, or from
    /// the default settings when they could not be read.
    pub fn new(current: Option<RadioSettings>) -> (r: Self)
        ensures
            r.wf(),
            r.cursor() == 0,
            ({
                let s = match current {
                    Some(s) => s,
                    None => RadioSettings {
                        spreading_factor: SpreadingFactor::_12,
                        bandwidth: Bandwidth::_125KHz,
                        coding_rate: CodingRate::_4_5,
                        frequency_hz: crate::config::LORA_FREQUENCY_HZ,
                        tx_power_dbm: 22,
                    },
                };
                &&& r.sf() == s.spreading_factor
                &&& r.bw() == s.bandwidth
                &&& r.cr() == s.coding_rate
                &&& r.tx_dbm() == s.tx_power_dbm
            }),
    {
        let s = match current {
            Some(s) => s,
            None => RadioSettings::default(),
        };
        Self {
            cursor: 0,
            sf: s.spreading_factor,
            tx_dbm: s.tx_power_dbm,
            bw: s.bandwidth,
            cr: s.coding_rate,
        }
    }

    /// The draft transmit power (dBm).
    pub fn tx_power(&self) -> (r: i32)
        ensures
            r == self.tx_dbm(),
    {
        self.tx_dbm
    }

    /// The field under the cursor.
    pub fn selected_field(&self) -> (r: Field)
        requires
            self.wf(),
        ensures
            r == spec_field_at(self.cursor() as int),
    {
        field_at(self.cursor)
    }

    /// Writes the draft into `settings`; the frequency is not edited here.
    pub fn commit(&self, settings: &mut RadioSettings)
        ensures
            final(settings).spreading_factor == self.sf(),
            final(settings).bandwidth == self.bw(),
            final(settings).coding_rate == self.cr(),
            final(settings).tx_power_dbm == self.tx_dbm(),
            final(settings).frequency_hz == old(settings).frequency_hz,
    {
        settings.spreading_factor = self.sf;
        settings.bandwidth = self.bw;
        settings.coding_rate = self.cr;
        settings.tx_power_dbm = self.tx_dbm;
    }

    /// The draft after the field under the cursor steps to its next value:
    /// the next spreading factor, bandwidth or coding rate (wrapping), or
    /// one more dBm up to `MAX_TX_DBM`.
    pub open spec fn stepped_up(&self, after: MenuScreen) -> bool {
        let f = spec_field_at(self.cursor() as int);
        &&& after.cursor() == self.cursor()
        &&& after.sf() == (if f == Field::SpreadingFactor { spec_sf_next(self.sf()) } else { self.sf() })
        &&& after.tx_dbm() == (if f == Field::TxPower {
            if self.tx_dbm() + 1 < MAX_TX_DBM { self.tx_dbm() + 1 } else { MAX_TX_DBM as int }
        } else {
            self.tx_dbm() as int
        })
        &&& after.bw() == (if f == Field::Bandwidth { spec_bw_next(self.bw()) } else { self.bw() })
        &&& after.cr() == (if f == Field::CodingRate { spec_cr_next(self.cr()) } else { self.cr() })
    }

    /// The draft after the field under the cursor steps to its previous
    /// value: the previous spreading factor, bandwidth or coding rate
    /// (wrapping), or one less dBm down to `MIN_TX_DBM`.
    pub open spec fn stepped_down(&self, after: MenuScreen) -> bool {
        let f = spec_field_at(self.cursor() as int);
        &&& after.cursor() == self.cursor()
        &&& after.sf() == (if f == Field::SpreadingFactor { spec_sf_prev(self.sf()) } else { self.sf() })
        &&& after.tx_dbm() == (if f == Field::TxPower {
            if self.tx_dbm() - 1 > MIN_TX_DBM { self.tx_dbm() - 1 } else { MIN_TX_DBM as int }
        } else {
            self.tx_dbm() as int
        })
        &&& after.bw() == (if f == Field::Bandwidth { spec_bw_prev(self.bw()) } else { self.bw() })
        &&& after.cr() == (if f == Field::CodingRate { spec_cr_prev(self.cr()) } else { self.cr() })
    }

    /// Steps the field under the cursor to its next value.
    pub fn increment(&mut self)
        requires
            old(self).wf(),
            spec_field_at(old(self).cursor() as int) == Field::TxPower ==> old(self).tx_dbm() < i32::MAX,
        ensures
            final(self).wf(),
            old(self).stepped_up(*final(self)),
    {
        match field_at(self.cursor) {
            Field::SpreadingFactor => self.sf = sf_next(self.sf),
            Field::TxPower => {
                let up = self.tx_dbm + 1;
                self.tx_dbm = if up < MAX_TX_DBM { up } else { MAX_TX_DBM };
            },
            Field::Bandwidth => self.bw = bw_next(self.bw),
            Field::CodingRate => self.cr = cr_next(self.cr),
        }
    }

    /// Steps the field under the cursor to its previous value.
    pub fn _decrement(&mut self)
        requires
            old(self).wf(),
            spec_field_at(old(self).cursor() as int) == Field::TxPower ==> old(self).tx_dbm() > i32::MIN,
        ensures
            final(self).wf(),
            old(self).stepped_down(*final(self)),
    {
        match field_at(self.cursor) {
            Field::SpreadingFactor => self.sf = _sf_prev(self.sf),
            Field::TxPower => {
                let down = self.tx_dbm - 1;
                self.tx_dbm = if down > MIN_TX_DBM { down } else { MIN_TX_DBM };
            },
            Field::Bandwidth => self.bw = _bw_prev(self.bw),
            Field::CodingRate => self.cr = _cr_prev(self.cr),
        }
    }

    /// The menu after `event`: up and down move the cursor within the four
    /// rows, select steps the field under the cursor, anything else leaves
    /// the menu as it is.
    pub open spec fn after_event(&self, event: UIEvent, after: MenuScreen) -> bool {
        match event {
            UIEvent::NavUp => after.same_draft(*self) && after.cursor() == (if self.cursor() > 0 {
                self.cursor() - 1
            } else {
                0
            }),
            UIEvent::NavDown => after.same_draft(*self) && after.cursor() == (if self.cursor() + 1 < FIELD_COUNT {
                self.cursor() + 1
            } else {
                self.cursor() as int
            }),
            UIEvent::NavSelect => self.stepped_up(after),
            _ => after == *self,
        }
    }

    /// Up and down move the cursor within the four rows; select steps the
    /// field under the cursor; back leaves without saving; the menu button
    /// saves and leaves.
    pub fn on_event(&mut self, event: &UIEvent) -> (r: MenuResponse)
        requires
            old(self).wf(),
            (event is NavSelect && spec_field_at(old(self).cursor() as int) == Field::TxPower)
                ==> old(self).tx_dbm() < i32::MAX,
        ensures
            final(self).wf(),
            old(self).after_event(*event, *final(self)),
            r.transition == menu_transition(*event),
            r.commit == (*event is NavMenu),
    {
        match event {
            UIEvent::NavUp => {
                if self.cursor > 0 {
                    self.cursor -= 1;
                }
                MenuResponse { transition: None, commit: false }
            },
            UIEvent::NavDown => {
                if self.cursor + 1 < FIELD_COUNT {
                    self.cursor += 1;
                }
                MenuResponse { transition: None, commit: false }
            },
            UIEvent::NavSelect => {
                self.increment();
                MenuResponse { transition: None, commit: false }
            },
            UIEvent::NavBack => {
                // Discard draft, return to chat without saving.
                MenuResponse { transition: Some(ScreenTransition::Back), commit: false }
            },
            UIEvent::NavMenu => {
                // Second press of the menu button = save & exit.
                MenuResponse { transition: Some(ScreenTransition::Back), commit: true }
            },
            _ => MenuResponse { transition: None, commit: false },
        }
    }

    /// The value label on row `i`.
    pub open spec fn row_label(&self, i: int) -> Seq<u8> {
        if i == 0 {
            padded_label(ascii_bytes(sf_text(self.sf())))
        } else if i == 1 {
            padded_label(dbm_text(self.tx_dbm()))
        } else if i == 2 {
            padded_label(ascii_bytes(bw_text(self.bw())))
        } else {
            padded_label(ascii_bytes(cr_text(self.cr())))
        }
    }

    /// The line shown on row `i`: a cursor mark, the field's key, and its
    /// value label (`?` when the label is not UTF-8).
    pub open spec fn row_text(&self, i: int) -> Seq<u8> {
        let mark = if i == self.cursor() { ">"@ } else { " "@ };
        let label = self.row_label(i);
        ascii_bytes(mark) + ascii_bytes(row_key(i)) + ascii_bytes(": "@) + (if valid_utf8(label) {
            label
        } else {
            ascii_bytes("?"@)
        })
    }

    /// The line shown on row `i`.
    pub fn row(&self, i: usize) -> (r: heapless::String<32>)
        requires
            i < FIELD_COUNT,
            i == 1 ==> ((if self.tx_dbm() < 0 { -self.tx_dbm() } else { self.tx_dbm() as int }) / 100) % 256 < 208,
        ensures
            row_bytes(r) == self.row_text(i as int),
    {
        broadcast use is_ascii_spec_bytes;
        proof {
            reveal_strlit(">");
            reveal_strlit(" ");
            reveal_strlit("SF ");
            reveal_strlit("dBm");
            reveal_strlit("BW ");
            reveal_strlit("CR ");
            reveal_strlit(": ");
            reveal_strlit("?");
        }
        let (key, val) = if i == 0 {
            ("SF ", sf_label(self.sf))
        } else if i == 1 {
            ("dBm", dbm_label(self.tx_dbm))
        } else if i == 2 {
            ("BW ", bw_label(self.bw))
        } else {
            ("CR ", cr_label(self.cr))
        };
        let prefix = if i == self.cursor { ">" } else { " " };

        assert(is_ascii(prefix) && is_ascii(key));
        assert(prefix.spec_bytes() =~= ascii_bytes(if i == self.cursor { ">"@ } else { " "@ }));
        assert(key.spec_bytes() =~= ascii_bytes(row_key(i as int)));
        assert(val@ == self.row_label(i as int));
        let sep = ": ";
        assert(is_ascii(sep));
        assert(sep.spec_bytes() =~= ascii_bytes(": "@));

        let mut line = row_new();
        let _ = row_push_str(&mut line, prefix);
        let _ = row_push_str(&mut line, key);
        let _ = row_push_str(&mut line, sep);
        let shown = match str_from_utf8(&val) {
            Ok(s) => s,
            Err(_) => "?",
        };
        assert(is_ascii("?"));
        assert("?".spec_bytes() =~= ascii_bytes("?"@));
        assert(shown.spec_bytes() == (if valid_utf8(val@) { val@ } else { ascii_bytes("?"@) }));
        let _ = row_push_str(&mut line, shown);
        assert(row_bytes(line) =~= self.row_text(i as int));
        line
    }

    /// The draft values are those of `other`.
    pub open spec fn same_draft(&self, other: MenuScreen) -> bool {
        &&& self.sf() == other.sf()
        &&& self.tx_dbm() == other.tx_dbm()
        &&& self.bw() == other.bw()
        &&& self.cr() == other.cr()
    }
}

// ── Cycle helpers ────────────────────────────────────────────────────────────

/// The spreading factor's number (5 to 12).
pub open spec fn sf_factor(sf: SpreadingFactor) -> int {
    match sf {
        SpreadingFactor::_5 => 5,
        SpreadingFactor::_6 => 6,
        SpreadingFactor::_7 => 7,
        SpreadingFactor::_8 => 8,
        SpreadingFactor::_9 => 9,
        SpreadingFactor::_10 => 10,
        SpreadingFactor::_11 => 11,
        SpreadingFactor::_12 => 12,
    }
}

/// The spreading factor with number `f` (5 to 12).
pub open spec fn sf_with_factor(f: int) -> SpreadingFactor {
    if f <= 5 {
        SpreadingFactor::_5
    } else if f == 6 {
        SpreadingFactor::_6
    } else if f == 7 {
        SpreadingFactor::_7
    } else if f == 8 {
        SpreadingFactor::_8
    } else if f == 9 {
        SpreadingFactor::_9
    } else if f == 10 {
        SpreadingFactor::_10
    } else if f == 11 {
        SpreadingFactor::_11
    } else {
        SpreadingFactor::_12
    }
}

/// The next spreading factor, wrapping from 12 to 5.
pub open spec fn spec_sf_next(sf: SpreadingFactor) -> SpreadingFactor {
    sf_with_factor(if sf_factor(sf) == 12 { 5 } else { sf_factor(sf) + 1 })
}

/// The previous spreading factor, wrapping from 5 to 12.
pub open spec fn spec_sf_prev(sf: SpreadingFactor) -> SpreadingFactor {
    sf_with_factor(if sf_factor(sf) == 5 { 12 } else { sf_factor(sf) - 1 })
}

/// The bandwidth's position, from 7.8 kHz (0) to 500 kHz (9).
pub open spec fn bw_index(bw: Bandwidth) -> int {
    match bw {
        Bandwidth::_7KHz => 0,
        Bandwidth::_10KHz => 1,
        Bandwidth::_15KHz => 2,
        Bandwidth::_20KHz => 3,
        Bandwidth::_31KHz => 4,
        Bandwidth::_41KHz => 5,
        Bandwidth::_62KHz => 6,
        Bandwidth::_125KHz => 7,
        Bandwidth::_250KHz => 8,
        Bandwidth::_500KHz => 9,
    }
}

/// The bandwidth at position `i` (0 to 9).
pub open spec fn bw_at_index(i: int) -> Bandwidth {
    if i <= 0 {
        Bandwidth::_7KHz
    } else if i == 1 {
        Bandwidth::_10KHz
    } else if i == 2 {
        Bandwidth::_15KHz
    } else if i == 3 {
        Bandwidth::_20KHz
    } else if i == 4 {
        Bandwidth::_31KHz
    } else if i == 5 {
        Bandwidth::_41KHz
    } else if i == 6 {
        Bandwidth::_62KHz
    } else if i == 7 {
        Bandwidth::_125KHz
    } else if i == 8 {
        Bandwidth::_250KHz
    } else {
        Bandwidth::_500KHz
    }
}

/// The next wider bandwidth, wrapping from 500 kHz to 7.8 kHz.
pub open spec fn spec_bw_next(bw: Bandwidth) -> Bandwidth {
    bw_at_index((bw_index(bw) + 1) % 10)
}

/// The next narrower bandwidth, wrapping from 7.8 kHz to 500 kHz.
pub open spec fn spec_bw_prev(bw: Bandwidth) -> Bandwidth {
    bw_at_index((bw_index(bw) + 9) % 10)
}

/// The coding rate's denominator (5 to 8, for 4/5 to 4/8).
pub open spec fn cr_denom(cr: CodingRate) -> int {
    match cr {
        CodingRate::_4_5 => 5,
        CodingRate::_4_6 => 6,
        CodingRate::_4_7 => 7,
        CodingRate::_4_8 => 8,
    }
}

/// The coding rate 4/`d` (`d` from 5 to 8).
pub open spec fn cr_with_denom(d: int) -> CodingRate {
    if d <= 5 {
        CodingRate::_4_5
    } else if d == 6 {
        CodingRate::_4_6
    } else if d == 7 {
        CodingRate::_4_7
    } else {
        CodingRate::_4_8
    }
}

/// The next coding rate, wrapping from 4/8 to 4/5.
pub open spec fn spec_cr_next(cr: CodingRate) -> CodingRate {
    cr_with_denom(if cr_denom(cr) == 8 { 5 } else { cr_denom(cr) + 1 })
}

/// The previous coding rate, wrapping from 4/5 to 4/8.
pub open spec fn spec_cr_prev(cr: CodingRate) -> CodingRate {
    cr_with_denom(if cr_denom(cr) == 5 { 8 } else { cr_denom(cr) - 1 })
}

pub fn sf_next(sf: SpreadingFactor) -> (r: SpreadingFactor)
    ensures
        r == spec_sf_next(sf),
        sf_factor(r) == (if sf_factor(sf) == 12 { 5 } else { sf_factor(sf) + 1 }),
{
    match sf {
        SpreadingFactor::_5 => SpreadingFactor::_6,
        SpreadingFactor::_6 => SpreadingFactor::_7,
        SpreadingFactor::_7 => SpreadingFactor::_8,
        SpreadingFactor::_8 => SpreadingFactor::_9,
        SpreadingFactor::_9 => SpreadingFactor::_10,
        SpreadingFactor::_10 => SpreadingFactor::_11,
        SpreadingFactor::_11 => SpreadingFactor::_12,
        SpreadingFactor::_12 => SpreadingFactor::_5,
    }
}

pub fn _sf_prev(sf: SpreadingFactor) -> (r: SpreadingFactor)
    ensures
        r == spec_sf_prev(sf),
        sf_factor(r) == (if sf_factor(sf) == 5 { 12 } else { sf_factor(sf) - 1 }),
{
    match sf {
        SpreadingFactor::_5 => SpreadingFactor::_12,
        SpreadingFactor::_6 => SpreadingFactor::_5,
        SpreadingFactor::_7 => SpreadingFactor::_6,
        SpreadingFactor::_8 => SpreadingFactor::_7,
        SpreadingFactor::_9 => SpreadingFactor::_8,
        SpreadingFactor::_10 => SpreadingFactor::_9,
        SpreadingFactor::_11 => SpreadingFactor::_10,
        SpreadingFactor::_12 => SpreadingFactor::_11,
    }
}

pub fn bw_next(bw: Bandwidth) -> (r: Bandwidth)
    ensures
        r == spec_bw_next(bw),
        bw_index(r) == (if bw_index(bw) == 9 { 0 } else { bw_index(bw) + 1 }),
{
    match bw {
        Bandwidth::_7KHz => Bandwidth::_10KHz,
        Bandwidth::_10KHz => Bandwidth::_15KHz,
        Bandwidth::_15KHz => Bandwidth::_20KHz,
        Bandwidth::_20KHz => Bandwidth::_31KHz,
        Bandwidth::_31KHz => Bandwidth::_41KHz,
        Bandwidth::_41KHz => Bandwidth::_62KHz,
        Bandwidth::_62KHz => Bandwidth::_125KHz,
        Bandwidth::_125KHz => Bandwidth::_250KHz,
        Bandwidth::_250KHz => Bandwidth::_500KHz,
        Bandwidth::_500KHz => Bandwidth::_7KHz,
    }
}

pub fn _bw_prev(bw: Bandwidth) -> (r: Bandwidth)
    ensures
        r == spec_bw_prev(bw),
        bw_index(r) == (if bw_index(bw) == 0 { 9 } else { bw_index(bw) - 1 }),
{
    match bw {
        Bandwidth::_7KHz => Bandwidth::_500KHz,
        Bandwidth::_10KHz => Bandwidth::_7KHz,
        Bandwidth::_15KHz => Bandwidth::_10KHz,
        Bandwidth::_20KHz => Bandwidth::_15KHz,
        Bandwidth::_31KHz => Bandwidth::_20KHz,
        Bandwidth::_41KHz => Bandwidth::_31KHz,
        Bandwidth::_62KHz => Bandwidth::_41KHz,
        Bandwidth::_125KHz => Bandwidth::_62KHz,
        Bandwidth::_250KHz => Bandwidth::_125KHz,
        Bandwidth::_500KHz => Bandwidth::_250KHz,
    }
}

pub fn cr_next(cr: CodingRate) -> (r: CodingRate)
    ensures
        r == spec_cr_next(cr),
        cr_denom(r) == (if cr_denom(cr) == 8 { 5 } else { cr_denom(cr) + 1 }),
{
    match cr {
        CodingRate::_4_5 => CodingRate::_4_6,
        CodingRate::_4_6 => CodingRate::_4_7,
        CodingRate::_4_7 => CodingRate::_4_8,
        CodingRate::_4_8 => CodingRate::_4_5,
    }
}

pub fn _cr_prev(cr: CodingRate) -> (r: CodingRate)
    ensures
        r == spec_cr_prev(cr),
        cr_denom(r) == (if cr_denom(cr) == 5 { 8 } else { cr_denom(cr) - 1 }),
{
    match cr {
        CodingRate::_4_5 => CodingRate::_4_8,
        CodingRate::_4_6 => CodingRate::_4_5,
        CodingRate::_4_7 => CodingRate::_4_6,
        CodingRate::_4_8 => CodingRate::_4_7,
    }
}

// ── Label renderers (fixed-width byte arrays) ────────────────────────────────

/// Width of a value label.
pub const LABEL_WIDTH: usize = 12;

/// The bytes of an ASCII text.
pub open spec fn ascii_bytes(s: Seq<char>) -> Seq<u8> {
    s.map_values(|c: char| c as u8)
}

/// `s` followed by spaces up to `LABEL_WIDTH` bytes.
pub open spec fn padded_label(s: Seq<u8>) -> Seq<u8> {
    s + Seq::new((LABEL_WIDTH - s.len()) as nat, |i: int| ' ' as u8)
}

pub open spec fn sf_text(sf: SpreadingFactor) -> Seq<char> {
    match sf {
        SpreadingFactor::_5 => "SF5"@,
        SpreadingFactor::_6 => "SF6"@,
        SpreadingFactor::_7 => "SF7"@,
        SpreadingFactor::_8 => "SF8"@,
        SpreadingFactor::_9 => "SF9"@,
        SpreadingFactor::_10 => "SF10"@,
        SpreadingFactor::_11 => "SF11"@,
        SpreadingFactor::_12 => "SF12"@,
    }
}

pub open spec fn bw_text(bw: Bandwidth) -> Seq<char> {
    match bw {
        Bandwidth::_7KHz => "7.8kHz"@,
        Bandwidth::_10KHz => "10.4kHz"@,
        Bandwidth::_15KHz => "15.6kHz"@,
        Bandwidth::_20KHz => "20.8kHz"@,
        Bandwidth::_31KHz => "31.25kHz"@,
        Bandwidth::_41KHz => "41.7kHz"@,
        Bandwidth::_62KHz => "62.5kHz"@,
        Bandwidth::_125KHz => "125kHz"@,
        Bandwidth::_250KHz => "250kHz"@,
        Bandwidth::_500KHz => "500kHz"@,
    }
}

pub open spec fn cr_text(cr: CodingRate) -> Seq<char> {
    match cr {
        CodingRate::_4_5 => "4/5"@,
        CodingRate::_4_6 => "4/6"@,
        CodingRate::_4_7 => "4/7"@,
        CodingRate::_4_8 => "4/8"@,
    }
}

/// The ASCII digit for `d` (0 to 9).
pub open spec fn digit(d: int) -> u8 {
    ('0' as u8 + d) as u8
}

/// The magnitude of a power in decimal, without leading zeros, for
/// magnitudes below 1000. Beyond that the hundreds place holds the byte
/// `'0' + m / 100`, with `m / 100` truncated to a byte.
pub open spec fn dbm_digits(m: int) -> Seq<u8> {
    let h = (m / 100) % 256;
    let t = (m / 10) % 10;
    let u = m % 10;
    (if h > 0 { seq![digit(h)] } else { Seq::empty() })
        + (if h > 0 || t > 0 { seq![digit(t)] } else { Seq::empty() })
        + seq![digit(u)]
}

/// A power as `[-]<digits>dBm`.
pub open spec fn dbm_text(dbm: i32) -> Seq<u8> {
    let m = if dbm < 0 { -dbm } else { dbm as int };
    (if dbm < 0 { seq!['-' as u8] } else { Seq::empty() }) + dbm_digits(m) + seq!['d' as u8, 'B' as u8, 'm' as u8]
}

/// The label `text`, padded with spaces.
fn label_from(text: &str) -> (r: [u8; 12])
    requires
        is_ascii(text),
        text@.len() <= LABEL_WIDTH,
    ensures
        r@ == padded_label(ascii_bytes(text@)),
{
    broadcast use is_ascii_spec_bytes;
    let bytes = text.as_bytes();
    let mut buf = [' ' as u8; 12];
    let mut i: usize = 0;
    while i < bytes.len()
        invariant
            bytes@ == ascii_bytes(text@),
            bytes@.len() <= LABEL_WIDTH,
            i <= bytes@.len(),
            forall|k: int| 0 <= k < i ==> #[trigger] buf@[k] == bytes@[k],
            forall|k: int| i <= k < LABEL_WIDTH ==> #[trigger] buf@[k] == ' ' as u8,
        decreases bytes@.len() - i,
    {
        buf[i] = bytes[i];
        i += 1;
    }
    assert(buf@ =~= padded_label(ascii_bytes(text@)));
    buf
}

pub fn sf_label(sf: SpreadingFactor) -> (r: [u8; 12])
    ensures
        r@ == padded_label(ascii_bytes(sf_text(sf))),
{
    let text = match sf {
        SpreadingFactor::_5 => "SF5",
        SpreadingFactor::_6 => "SF6",
        SpreadingFactor::_7 => "SF7",
        SpreadingFactor::_8 => "SF8",
        SpreadingFactor::_9 => "SF9",
        SpreadingFactor::_10 => "SF10",
        SpreadingFactor::_11 => "SF11",
        SpreadingFactor::_12 => "SF12",
    };
    proof {
        reveal_strlit("SF5");
        reveal_strlit("SF6");
        reveal_strlit("SF7");
        reveal_strlit("SF8");
        reveal_strlit("SF9");
        reveal_strlit("SF10");
        reveal_strlit("SF11");
        reveal_strlit("SF12");
    }
    label_from(text)
}

pub fn bw_label(bw: Bandwidth) -> (r: [u8; 12])
    ensures
        r@ == padded_label(ascii_bytes(bw_text(bw))),
{
    let text = match bw {
        Bandwidth::_7KHz => "7.8kHz",
        Bandwidth::_10KHz => "10.4kHz",
        Bandwidth::_15KHz => "15.6kHz",
        Bandwidth::_20KHz => "20.8kHz",
        Bandwidth::_31KHz => "31.25kHz",
        Bandwidth::_41KHz => "41.7kHz",
        Bandwidth::_62KHz => "62.5kHz",
        Bandwidth::_125KHz => "125kHz",
        Bandwidth::_250KHz => "250kHz",
        Bandwidth::_500KHz => "500kHz",
    };
    proof {
        reveal_strlit("7.8kHz");
        reveal_strlit("10.4kHz");
        reveal_strlit("15.6kHz");
        reveal_strlit("20.8kHz");
        reveal_strlit("31.25kHz");
        reveal_strlit("41.7kHz");
        reveal_strlit("62.5kHz");
        reveal_strlit("125kHz");
        reveal_strlit("250kHz");
        reveal_strlit("500kHz");
    }
    label_from(text)
}

pub fn cr_label(cr: CodingRate) -> (r: [u8; 12])
    ensures
        r@ == padded_label(ascii_bytes(cr_text(cr))),
{
    let text = match cr {
        CodingRate::_4_5 => "4/5",
        CodingRate::_4_6 => "4/6",
        CodingRate::_4_7 => "4/7",
        CodingRate::_4_8 => "4/8",
    };
    proof {
        reveal_strlit("4/5");
        reveal_strlit("4/6");
        reveal_strlit("4/7");
        reveal_strlit("4/8");
    }
    label_from(text)
}

/// Renders a power as `[-]<digits>dBm`, padded with spaces. The hundreds
/// digit is written as the byte `'0' + m / 100` (truncated to a byte), which
/// `requires` keeps from overflowing.
pub fn dbm_label(dbm: i32) -> (r: [u8; 12])
    requires
        ((if dbm < 0 { -dbm } else { dbm as int }) / 100) % 256 < 208,
    ensures
        r@ == padded_label(dbm_text(dbm)),
{
    let mut buf = [' ' as u8; 12];
    let abs: u32 = if dbm < 0 { (0i64 - dbm as i64) as u32 } else { dbm as u32 };
    let q: u32 = abs / 100;
    let hundreds = q as u8;
    let tens = ((abs / 10) % 10) as u8;
    let units = (abs % 10) as u8;
    assert((q as u8) as u32 == q % 256) by (bit_vector);
    let mut i: usize = 0;
    if dbm < 0 {
        buf[i] = '-' as u8;
        i += 1;
    }
    if hundreds > 0 {
        buf[i] = '0' as u8 + hundreds;
        i += 1;
    }
    if hundreds > 0 || tens > 0 {
        buf[i] = '0' as u8 + tens;
        i += 1;
    }
    buf[i] = '0' as u8 + units;
    i += 1;
    buf[i] = 'd' as u8;
    i += 1;
    buf[i] = 'B' as u8;
    i += 1;
    buf[i] = 'm' as u8;
    assert(buf@ =~= padded_label(dbm_text(dbm)));
    buf
}

// ── Laws ─────────────────────────────────────────────────────────────────────

/// Stepping a spreading factor forward and back, or back and forward,
/// returns it.
pub proof fn lemma_sf_steps_invert(sf: SpreadingFactor)
    ensures
        spec_sf_prev(spec_sf_next(sf)) == sf,
        spec_sf_next(spec_sf_prev(sf)) == sf,
{
}

/// Stepping a bandwidth forward and back, or back and forward, returns it.
pub proof fn lemma_bw_steps_invert(bw: Bandwidth)
    ensures
        spec_bw_prev(spec_bw_next(bw)) == bw,
        spec_bw_next(spec_bw_prev(bw)) == bw,
{
}

/// Stepping a coding rate forward and back, or back and forward, returns it.
pub proof fn lemma_cr_steps_invert(cr: CodingRate)
    ensures
        spec_cr_prev(spec_cr_next(cr)) == cr,
        spec_cr_next(spec_cr_prev(cr)) == cr,
{
}

/// Stepping a spreading factor up raises its number by one, from SF12 back
/// to SF5; stepping it down lowers it by one, from SF5 back to SF12. Every
/// spreading factor is numbered 5 to 12.
pub proof fn lemma_sf_steps_by_one(sf: SpreadingFactor)
    ensures
        5 <= sf_factor(sf) <= 12,
        sf_factor(spec_sf_next(sf)) == (if sf_factor(sf) == 12 { 5 } else { sf_factor(sf) + 1 }),
        sf_factor(spec_sf_prev(sf)) == (if sf_factor(sf) == 5 { 12 } else { sf_factor(sf) - 1 }),
{
}

/// Stepping a bandwidth up moves to the next wider one, from 500 kHz back
/// to 7.8 kHz; stepping it down moves to the next narrower one.
pub proof fn lemma_bw_steps_by_one(bw: Bandwidth)
    ensures
        0 <= bw_index(bw) <= 9,
        bw_index(spec_bw_next(bw)) == (if bw_index(bw) == 9 { 0 } else { bw_index(bw) + 1 }),
        bw_index(spec_bw_prev(bw)) == (if bw_index(bw) == 0 { 9 } else { bw_index(bw) - 1 }),
{
}

/// Stepping a coding rate up moves from 4/d to 4/(d+1), from 4/8 back to
/// 4/5; stepping it down moves from 4/d to 4/(d-1), from 4/5 back to 4/8.
pub proof fn lemma_cr_steps_by_one(cr: CodingRate)
    ensures
        5 <= cr_denom(cr) <= 8,
        cr_denom(spec_cr_next(cr)) == (if cr_denom(cr) == 8 { 5 } else { cr_denom(cr) + 1 }),
        cr_denom(spec_cr_prev(cr)) == (if cr_denom(cr) == 5 { 8 } else { cr_denom(cr) - 1 }),
{
}

/// A transmit power within the menu's range stays within it when stepped
/// up or down.
pub proof fn lemma_tx_power_stays_in_range(dbm: i32)
    requires
        MIN_TX_DBM <= dbm <= MAX_TX_DBM,
    ensures
        ({
            let up = if dbm + 1 < MAX_TX_DBM { dbm + 1 } else { MAX_TX_DBM as int };
            let down = if dbm - 1 > MIN_TX_DBM { dbm - 1 } else { MIN_TX_DBM as int };
            &&& MIN_TX_DBM <= up <= MAX_TX_DBM
            &&& MIN_TX_DBM <= down <= MAX_TX_DBM
        }),
{
}

} // verus!
