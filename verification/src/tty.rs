//! The geometry of a terminal.

use vstd::prelude::*;
use vstd::std_specs::convert::FromSpecImpl;

verus! {

/// The number of columns of a terminal whose size is not known.
pub const DEFAULT_COLS: u16 = 80;

/// The number of rows of a terminal whose size is not known.
pub const DEFAULT_ROWS: u16 = 24;

/// The size of a terminal: columns, then rows.
#[derive(Clone, Copy, Debug, PartialEq, Eq, Structural)]
pub struct TtySize(pub u16, pub u16);

impl Default for TtySize {
    /// The size that a terminal is taken to have where it reports none: 80
    /// columns and 24 rows.
    fn default() -> (size: Self)
        ensures
            size == TtySize(DEFAULT_COLS, DEFAULT_ROWS),
    {
        TtySize(DEFAULT_COLS, DEFAULT_ROWS)
    }
}

impl From<TtySize> for (u16, u16) {
    /// Columns first, rows second.
    fn from(tty_size: TtySize) -> (pair: Self) {
        (tty_size.0, tty_size.1)
    }
}

impl FromSpecImpl<TtySize> for (u16, u16) {
    open spec fn obeys_from_spec() -> bool {
        true
    }

    open spec fn from_spec(tty_size: TtySize) -> Self {
        (tty_size.0, tty_size.1)
    }
}

} // verus!
