use vstd::prelude::*;

verus! {

/// The toggle-switch position for a raw ADC conversion result: the 12-bit range
/// `0..=4095` scaled down to 4 bits, that is, split into 16 buckets of 256 counts.
pub open spec fn toggle_value(raw: u16) -> u8 {
    (raw * 16 / 4096) as u8
}

/// A bank of toggle switches read through one ADC channel (GPIO26 on the puzzle box).
///
/// It holds the outcome of the latest ADC conversion on its pin: `Some(raw)` for a
/// successful conversion, `None` when the conversion failed.
pub struct AdcToggleSwitch {
    reading: Option<u16>,
}

impl View for AdcToggleSwitch {
    type V = Option<u16>;

    closed spec fn view(&self) -> Option<u16> {
        self.reading
    }
}

impl AdcToggleSwitch {
    /// Creates a toggle switch on which no conversion has succeeded yet.
    pub fn new() -> (switch: Self)
        ensures
            switch@ == None::<u16>,
    {
        AdcToggleSwitch { reading: None }
    }

    /// Records the outcome of the conversion just performed on the switch's pin.
    pub fn sample(&mut self, reading: Option<u16>)
        ensures
            final(self)@ == reading,
    {
        self.reading = reading;
    }

    /// The raw ADC value of the latest conversion (0..=4095 for a 12-bit converter),
    /// or `0` if the conversion failed.
    pub fn read_adc_raw(&self) -> (raw: u16)
        ensures
            raw == match self@ {
                Some(r) => r,
                None => 0u16,
            },
    {
        match self.reading {
            Some(r) => r,
            None => 0,
        }
    }

    /// Reads the current value of the toggle switches, normalized into `0..=15`
    /// (`raw * 16 / 4096`); a failed conversion reads as `0`.
    pub fn read_toggle_switch_value(&self) -> (value: u8)
        ensures
            value == toggle_value(
                match self@ {
                    Some(r) => r,
                    None => 0u16,
                },
            ),
    {
        let raw = self.read_adc_raw();
        scale_to_toggle_value(raw)
    }
}

/// Scales a raw ADC value down to the 4-bit toggle-switch position (`raw * 16 / 4096`).
pub fn scale_to_toggle_value(raw: u16) -> (value: u8)
    ensures
        value == toggle_value(raw),
        value as int == raw as int / 256,
        raw <= 4095 ==> value <= 15,
{
    let scaled: u32 = raw as u32 * 16 / 4096;
    scaled as u8
}

/// The scaling is monotone: a higher raw reading never gives a lower switch position.
pub proof fn toggle_value_monotone(raw1: u16, raw2: u16)
    requires
        raw1 <= raw2,
    ensures
        toggle_value(raw1) <= toggle_value(raw2),
{
}

} // verus!
