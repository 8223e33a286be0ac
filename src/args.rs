use vstd::prelude::*;

verus! {

/// Settings of a session: the serial port and its baud rate, and the base
/// in which raw-byte console lines (those ending in `~`) are read.
pub struct Args {
    pub port: String,
    pub baud_rate: u32,
    pub radix_input_buffer: u8,
}

impl Default for Args {
    fn default() -> (r: Self)
        ensures
            r.port@ == "/dev/ttyUSB0"@,
            r.baud_rate == 115_200,
            r.radix_input_buffer == 16,
    {
        Args { port: "/dev/ttyUSB0".to_string(), baud_rate: 115_200, radix_input_buffer: 16 }
    }
}

impl Args {
    /// Whether raw-byte lines can be read in the configured base.
    pub fn radix_is_valid(&self) -> (r: bool)
        ensures
            r == (2 <= self.radix_input_buffer <= 36),
    {
        2 <= self.radix_input_buffer && self.radix_input_buffer <= 36
    }
}

} // verus!
