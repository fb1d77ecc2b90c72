//! The fixed catalog of difficulty presets offered before a game starts.

use vstd::prelude::*;

verus! {

/// A named preset: board geometry plus mine count.
#[derive(Clone, Debug)]
pub struct Difficulty {
    pub name: &'static str,
    pub width: usize,
    pub height: usize,
    pub mines: usize,
}

impl Difficulty {
    /// The preset can build a board: positive geometry that fits the
    /// machine and fewer mines than cells.
    pub open spec fn valid(self) -> bool {
        &&& 1 <= self.width
        &&& 1 <= self.height
        &&& self.width * self.height <= isize::MAX
        &&& self.mines < self.width * self.height
    }
}

pub fn easy_difficulty() -> (d: Difficulty)
    ensures
        d.valid(),
        d.width == 9,
        d.height == 9,
        d.mines == 10,
{
    Difficulty { name: "Easy", width: 9, height: 9, mines: 10 }
}

pub fn intermediate_difficulty() -> (d: Difficulty)
    ensures
        d.valid(),
        d.width == 16,
        d.height == 16,
        d.mines == 40,
{
    Difficulty { name: "Intermediate", width: 16, height: 16, mines: 40 }
}

pub fn expert_difficulty() -> (d: Difficulty)
    ensures
        d.valid(),
        d.width == 30,
        d.height == 16,
        d.mines == 99,
{
    Difficulty { name: "Expert", width: 30, height: 16, mines: 99 }
}

/// The selection menu's catalog, easiest first.
pub fn difficulties() -> (v: Vec<Difficulty>)
    ensures
        v@.len() == 3,
        forall|i: int| 0 <= i < v@.len() ==> (#[trigger] v@[i]).valid(),
        v@[0].width == 9 && v@[0].height == 9 && v@[0].mines == 10,
        v@[1].width == 16 && v@[1].height == 16 && v@[1].mines == 40,
        v@[2].width == 30 && v@[2].height == 16 && v@[2].mines == 99,
{
    let mut v: Vec<Difficulty> = Vec::new();
    v.push(easy_difficulty());
    v.push(intermediate_difficulty());
    v.push(expert_difficulty());
    v
}

} // verus!
