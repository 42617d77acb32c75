//! The sensor panel: formatted sensor readings in two columns, the
//! temperature, power, fan and link lines, and the opportunistic
//! bandwidth line.

use crate::fmt::{dec_str, pad_left, pad_right, push_dec, push_dec_pad_left, push_dec_pad_right,
    push_pad_left, push_pad_right};
use crate::telemetry::{PcieBw, Sensors};
use crate::text::Text;
use crate::ToggleOptions;
use vstd::prelude::*;
use vstd::string::StringExecFns;

verus! {

/// Width of the whole panel, in characters.
pub const PANEL_WIDTH: usize = 70;

/// Width of one of the two sensor columns.
pub const HALF_WIDTH: usize = 35;

/// One two-column cell: the sensor's name, its reading and its unit, the
/// whole cell padded to half the panel.
pub open spec fn pair_cell(name: Seq<char>, val: nat, unit: Seq<char>) -> Seq<char> {
    " "@ + pad_right(
        pad_right(name, 10) + " => "@ + pad_left(dec_str(val), 5) + " "@ + pad_right(unit, 3),
        HALF_WIDTH as nat,
    ) + " "@
}

/// One sensor's contribution to the two-column block: nothing when absent,
/// its cell when present, with a newline after every second present cell.
/// `c` counts the cells already present.
pub open spec fn pair_block(c: nat, name: Seq<char>, val: Option<u64>, unit: Seq<char>) -> Seq<
    char,
> {
    match val {
        Some(v) => pair_cell(name, v as nat, unit) + (if (c + 1) % 2 == 0 {
            "\n"@
        } else {
            Seq::empty()
        }),
        None => Seq::empty(),
    }
}

/// Cells present after this sensor.
pub open spec fn next_c(c: nat, val: Option<u64>) -> nat {
    if val is Some {
        c + 1
    } else {
        c
    }
}

/// The two-column block of the four clock and voltage sensors, closed with
/// a newline when an odd number of cells is present.
pub open spec fn sensors_quad(s: Sensors) -> Seq<char> {
    let c1 = next_c(0, s.sclk);
    let c2 = next_c(c1, s.mclk);
    let c3 = next_c(c2, s.vddnb);
    let c4 = next_c(c3, s.vddgfx);
    pair_block(0, "GFX_SCLK"@, s.sclk, "MHz"@) + pair_block(c1, "GFX_MCLK"@, s.mclk, "MHz"@)
        + pair_block(c2, "VDDNB"@, s.vddnb, "mV"@) + pair_block(c3, "VDDGFX"@, s.vddgfx, "mV"@) + (
    if c4 % 2 == 1 {
        "\n"@
    } else {
        Seq::empty()
    })
}

/// The temperature line, shown only when the sensor reports; millidegrees
/// reduced to degrees, the critical threshold appended when known.
pub open spec fn temp_line(temp: Option<u64>, crit: Option<u64>) -> Seq<char> {
    match temp {
        Some(t) => match crit {
            Some(c) => " GPU Temp. => "@ + pad_left(dec_str((t / 1000) as nat), 3) + " C (Crit. "@
                + dec_str(c as nat) + " C)\n"@,
            None => " GPU Temp. => "@ + pad_left(dec_str((t / 1000) as nat), 3) + " C\n"@,
        },
        None => Seq::empty(),
    }
}

/// The power line, shown only when the sensor reports; the cap appended
/// when known.
pub open spec fn power_line(power: Option<u64>, cap: Option<u64>) -> Seq<char> {
    match power {
        Some(p) => match cap {
            Some(c) => " GPU Power => "@ + pad_left(dec_str(p as nat), 3) + " W (Cap. "@ + dec_str(
                c as nat,
            ) + " W)\n"@,
            None => " GPU Power => "@ + pad_left(dec_str(p as nat), 3) + " W\n"@,
        },
        None => Seq::empty(),
    }
}

/// The fan line, shown only when the sensor reports; the maximum appended
/// when known.
pub open spec fn fan_line(fan: Option<u64>, max: Option<u64>) -> Seq<char> {
    match fan {
        Some(f) => match max {
            Some(m) => " Fan => "@ + pad_left(dec_str(f as nat), 4) + " RPM (Max. "@ + dec_str(
                m as nat,
            ) + " RPM)\n"@,
            None => " Fan => "@ + pad_left(dec_str(f as nat), 4) + " RPM\n"@,
        },
        None => Seq::empty(),
    }
}

/// The link line: bus address, current and maximum link speed and width.
pub open spec fn pci_line(s: Sensors) -> Seq<char> {
    " PCI ("@ + s.bus_info@ + ") => Gen"@ + dec_str(s.cur_gen as nat) + "x"@ + pad_right(
        dec_str(s.cur_width as nat),
        2,
    ) + " (Max. Gen"@ + dec_str(s.max_gen as nat) + "x"@ + dec_str(s.max_width as nat) + ")\n"@
}

/// The whole sensor panel text of one sample, without the bandwidth line.
pub open spec fn sensors_text_spec(s: Sensors) -> Seq<char> {
    sensors_quad(s) + temp_line(s.temp, s.critical_temp) + power_line(s.power, s.power_cap)
        + fan_line(s.fan_rpm, s.fan_max_rpm) + pci_line(s)
}

/// The sent counters of one bandwidth sample, in mebibytes.
pub open spec fn sent_mib(bw: PcieBw) -> nat {
    ((bw.sent * bw.max_payload_size) / 0x100000) as nat
}

/// The received counters of one bandwidth sample, in mebibytes.
pub open spec fn received_mib(bw: PcieBw) -> nat {
    ((bw.received * bw.max_payload_size) / 0x100000) as nat
}

/// The bandwidth line of the sensor panel.
pub open spec fn bw_line(bw: PcieBw) -> Seq<char> {
    " PCIe Bandwidth Usage => Sent: "@ + pad_left(dec_str(sent_mib(bw)), 6) + " MiB/s, Received: "@
        + pad_left(dec_str(received_mib(bw)), 6) + " MiB/s\n"@
}

/// Appends one sensor's two-column cell, when present; returns the new
/// count of present cells.
fn push_pair(b: &mut String, name: &str, val: Option<u64>, unit: &str, c: u64) -> (nc: u64)
    requires
        c < 8,
    ensures
        final(b)@ == old(b)@ + pair_block(c as nat, name@, val, unit@),
        nc == next_c(c as nat, val),
{
    match val {
        Some(v) => {
            let mut inner = String::new();
            push_pad_right(&mut inner, name, 10);
            inner.append(" => ");
            push_dec_pad_left(&mut inner, v, 5);
            inner.append(" ");
            push_pad_right(&mut inner, unit, 3);
            proof {
                assert(inner@ =~= pad_right(name@, 10) + " => "@ + pad_left(dec_str(v as nat), 5)
                    + " "@ + pad_right(unit@, 3));
            }
            b.append(" ");
            push_pad_right(b, inner.as_str(), HALF_WIDTH);
            b.append(" ");
            if (c + 1) % 2 == 0 {
                b.append("\n");
            }
            proof {
                assert(final(b)@ =~= old(b)@ + pair_block(c as nat, name@, val, unit@));
            }
            c + 1
        },
        None => c,
    }
}

/// Appends the four-sensor two-column block to an empty staging buffer.
fn push_quad(b: &mut String, s: &Sensors)
    requires
        old(b)@ == Seq::<char>::empty(),
    ensures
        final(b)@ == sensors_quad(*s),
{
    let mut c: u64 = 0;
    c = push_pair(b, "GFX_SCLK", s.sclk, "MHz", c);
    proof {
        assert(Seq::<char>::empty() + pair_block(0, "GFX_SCLK"@, s.sclk, "MHz"@) =~= pair_block(
            0,
            "GFX_SCLK"@,
            s.sclk,
            "MHz"@,
        ));
    }
    c = push_pair(b, "GFX_MCLK", s.mclk, "MHz", c);
    c = push_pair(b, "VDDNB", s.vddnb, "mV", c);
    c = push_pair(b, "VDDGFX", s.vddgfx, "mV", c);
    if c % 2 == 1 {
        b.append("\n");
    }
}

/// Appends the temperature line, when the sensor reports one.
fn push_temp_line(b: &mut String, temp: Option<u64>, crit: Option<u64>)
    ensures
        final(b)@ == old(b)@ + temp_line(temp, crit),
{
    match temp {
        Some(t) => {
            b.append(" GPU Temp. => ");
            push_dec_pad_left(b, t / 1000, 3);
            match crit {
                Some(c) => {
                    b.append(" C (Crit. ");
                    push_dec(b, c);
                    b.append(" C)\n");
                },
                None => {
                    b.append(" C\n");
                },
            }
            proof {
                assert(final(b)@ =~= old(b)@ + temp_line(temp, crit));
            }
        },
        None => {},
    }
}

/// Appends the power line, when the sensor reports one.
fn push_power_line(b: &mut String, power: Option<u64>, cap: Option<u64>)
    ensures
        final(b)@ == old(b)@ + power_line(power, cap),
{
    match power {
        Some(p) => {
            b.append(" GPU Power => ");
            push_dec_pad_left(b, p, 3);
            match cap {
                Some(c) => {
                    b.append(" W (Cap. ");
                    push_dec(b, c);
                    b.append(" W)\n");
                },
                None => {
                    b.append(" W\n");
                },
            }
            proof {
                assert(final(b)@ =~= old(b)@ + power_line(power, cap));
            }
        },
        None => {},
    }
}

/// Appends the fan line, when the sensor reports one.
fn push_fan_line(b: &mut String, fan: Option<u64>, max: Option<u64>)
    ensures
        final(b)@ == old(b)@ + fan_line(fan, max),
{
    match fan {
        Some(f) => {
            b.append(" Fan => ");
            push_dec_pad_left(b, f, 4);
            match max {
                Some(m) => {
                    b.append(" RPM (Max. ");
                    push_dec(b, m);
                    b.append(" RPM)\n");
                },
                None => {
                    b.append(" RPM\n");
                },
            }
            proof {
                assert(final(b)@ =~= old(b)@ + fan_line(fan, max));
            }
        },
        None => {},
    }
}

/// Appends the link line.
fn push_pci_line(b: &mut String, s: &Sensors)
    ensures
        final(b)@ == old(b)@ + pci_line(*s),
{
    b.append(" PCI (");
    b.append(s.bus_info.as_str());
    b.append(") => Gen");
    push_dec(b, s.cur_gen);
    b.append("x");
    push_dec_pad_right(b, s.cur_width, 2);
    b.append(" (Max. Gen");
    push_dec(b, s.max_gen);
    b.append("x");
    push_dec(b, s.max_width);
    b.append(")\n");
    proof {
        assert(final(b)@ =~= old(b)@ + pci_line(*s));
    }
}

/// Writes the whole sensor panel text of one sample into an empty staging
/// buffer.
pub fn push_sensors_text(b: &mut String, s: &Sensors)
    requires
        old(b)@ == Seq::<char>::empty(),
    ensures
        final(b)@ == sensors_text_spec(*s),
{
    push_quad(b, s);
    push_temp_line(b, s.temp, s.critical_temp);
    push_power_line(b, s.power, s.power_cap);
    push_fan_line(b, s.fan_rpm, s.fan_max_rpm);
    push_pci_line(b, s);
}

/// Appends the bandwidth line for one sample of the counters.
pub fn push_bw_line(b: &mut String, bw: &PcieBw)
    requires
        bw.sent * bw.max_payload_size <= u64::MAX,
        bw.received * bw.max_payload_size <= u64::MAX,
    ensures
        final(b)@ == old(b)@ + bw_line(*bw),
{
    let sent: u64 = (bw.sent * bw.max_payload_size) >> 20u64;
    let rec: u64 = (bw.received * bw.max_payload_size) >> 20u64;
    proof {
        let ps = (bw.sent * bw.max_payload_size) as u64;
        let pr = (bw.received * bw.max_payload_size) as u64;
        assert(ps >> 20u64 == ps / 0x100000) by (bit_vector);
        assert(pr >> 20u64 == pr / 0x100000) by (bit_vector);
    }
    b.append(" PCIe Bandwidth Usage => Sent: ");
    push_dec_pad_left(b, sent, 6);
    b.append(" MiB/s, Received: ");
    push_dec_pad_left(b, rec, 6);
    b.append(" MiB/s\n");
    proof {
        assert(final(b)@ =~= old(b)@ + bw_line(*bw));
    }
}

/// The sensor panel of the detailed view: the last readings and the text
/// slot they are formatted into.
pub struct SensorsView {
    pub sensors: Sensors,
    pub text: Text,
}

impl SensorsView {
    /// A panel around a first set of readings, its slot empty.
    pub fn new(sensors: Sensors) -> (r: Self)
        ensures
            r.sensors == sensors,
            r.text.buf@ == Seq::<char>::empty(),
            r.text.spec_published() == Seq::<char>::empty(),
    {
        SensorsView { sensors, text: Text::new() }
    }

    /// Adopts a fresh set of readings.
    pub fn update(&mut self, sensors: Sensors)
        ensures
            final(self).sensors == sensors,
            final(self).text == old(self).text,
    {
        self.sensors = sensors;
    }

    /// Restages the panel from the current readings. Staging only; the
    /// published value is untouched until the tick commits.
    pub fn print(&mut self)
        ensures
            final(self).text.buf@ == sensors_text_spec(old(self).sensors),
            final(self).text.spec_published() == old(self).text.spec_published(),
            final(self).sensors == old(self).sensors,
    {
        self.text.clear();
        push_sensors_text(&mut self.text.buf, &self.sensors);
        proof {
            assert(self.text.buf@ =~= sensors_text_spec(self.sensors));
        }
    }

    /// Appends the bandwidth line to the staged panel.
    pub fn print_pcie_bw(&mut self, pcie_bw: &PcieBw)
        requires
            pcie_bw.sent * pcie_bw.max_payload_size <= u64::MAX,
            pcie_bw.received * pcie_bw.max_payload_size <= u64::MAX,
        ensures
            final(self).text.buf@ == old(self).text.buf@ + bw_line(*pcie_bw),
            final(self).text.spec_published() == old(self).text.spec_published(),
            final(self).sensors == old(self).sensors,
    {
        push_bw_line(&mut self.text.buf, pcie_bw);
    }

    /// The sensor-panel key handler: flips the panel's visibility toggle.
    pub fn cb(opt: &mut ToggleOptions)
        ensures
            final(opt).sensor == !old(opt).sensor,
            *final(opt) == (ToggleOptions { sensor: final(opt).sensor, ..*old(opt) }),
    {
        opt.sensor = !opt.sensor;
    }
}

} // verus!