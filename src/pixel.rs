use vstd::prelude::*;

verus! {

/// The three colour channels of a cell, as seen by contracts.
pub type Rgb = (u8, u8, u8);

/// An empty cell.
pub open spec fn black() -> Rgb {
    (0, 0, 0)
}

/// The cell that holds the food.
pub open spec fn food_colour() -> Rgb {
    (0, 255, 0)
}

/// A cell covered by the snake's body.
pub open spec fn body_colour() -> Rgb {
    (0, 125, 255)
}

/// The colours of a sequence of cells.
pub open spec fn colours(cells: Seq<Pixel>) -> Seq<Rgb> {
    cells.map_values(|p: Pixel| p@)
}

/// One cell of the grid: an RGB triple.
#[derive(Clone, Copy, Debug, PartialEq, Eq, Structural)]
pub struct Pixel {
    red: u8,
    green: u8,
    blue: u8,
}

impl View for Pixel {
    type V = Rgb;

    closed spec fn view(&self) -> Rgb {
        (self.red, self.green, self.blue)
    }
}

impl Pixel {
    pub(crate) fn rgb(red: u8, green: u8, blue: u8) -> (p: Pixel)
        ensures
            p@ == (red, green, blue),
    {
        Pixel { red, green, blue }
    }

    pub fn red(&self) -> (r: u8)
        ensures
            r == self@.0,
    {
        self.red
    }

    pub fn green(&self) -> (r: u8)
        ensures
            r == self@.1,
    {
        self.green
    }

    pub fn blue(&self) -> (r: u8)
        ensures
            r == self@.2,
    {
        self.blue
    }
}

} // verus!
