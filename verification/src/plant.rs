use vstd::prelude::*;
use crate::item::ItemRef;

verus! {

/// The growth phases of a plant, youngest first.
#[derive(PartialEq, Eq, Structural, Debug, Clone, Copy)]
pub enum FasesPlantas {
    Bebe,
    Infancia,
    Adolescencia,
    Juventud,
    Madura,
}

/// The phase after one growth step; a mature plant stays mature.
pub open spec fn next_phase(f: FasesPlantas) -> FasesPlantas {
    match f {
        FasesPlantas::Bebe => FasesPlantas::Infancia,
        FasesPlantas::Infancia => FasesPlantas::Adolescencia,
        FasesPlantas::Adolescencia => FasesPlantas::Juventud,
        _ => FasesPlantas::Madura,
    }
}

/// The position of a phase, 0 for `Bebe` up to 4 for `Madura`; it is also
/// the sprite frame that shows the phase.
pub open spec fn phase_index(f: FasesPlantas) -> int {
    match f {
        FasesPlantas::Bebe => 0,
        FasesPlantas::Infancia => 1,
        FasesPlantas::Adolescencia => 2,
        FasesPlantas::Juventud => 3,
        FasesPlantas::Madura => 4,
    }
}

/// The growth points one tick brings: the minimum plus the random number
/// reduced below the width of the range.
pub open spec fn growth_points(random_number: u32, min_cre: u32, max_cre: u32) -> int {
    min_cre + random_number % ((max_cre - min_cre) as u32)
}

pub struct PlantaView {
    pub grow_points: u32,
    pub fase_actual: FasesPlantas,
    pub fruit_data: Option<ItemRef>,
}

/// A plant in the ground: its growth points, its phase and the fruit it
/// gives when mature.
pub struct Planta {
    grow_points: u32,
    fase_actual: FasesPlantas,
    fruit_data: Option<ItemRef>,
}

impl View for Planta {
    type V = PlantaView;

    closed spec fn view(&self) -> PlantaView {
        PlantaView {
            grow_points: self.grow_points,
            fase_actual: self.fase_actual,
            fruit_data: self.fruit_data,
        }
    }
}

impl Planta {
    /// A freshly planted seedling.
    pub fn new(fruit_data: Option<ItemRef>) -> (p: Planta)
        ensures
            p@ == (PlantaView { grow_points: 0, fase_actual: FasesPlantas::Bebe, fruit_data }),
    {
        Planta { grow_points: 0, fase_actual: FasesPlantas::Bebe, fruit_data }
    }

    pub fn get_fase_actual(&self) -> (r: FasesPlantas)
        ensures
            r == self@.fase_actual,
    {
        self.fase_actual
    }

    pub fn get_grow_points(&self) -> (r: u32)
        ensures
            r == self@.grow_points,
    {
        self.grow_points
    }

    pub fn set_fruit_data(&mut self, fruit_data: Option<ItemRef>)
        ensures
            final(self)@ == (PlantaView { fruit_data, ..old(self)@ }),
    {
        self.fruit_data = fruit_data;
    }

    /// The growth points of one tick for this random number.
    pub fn grow_increment(random_number: u32, min_cre: u32, max_cre: u32) -> (r: u32)
        requires
            min_cre < max_cre,
        ensures
            r == growth_points(random_number, min_cre, max_cre),
            min_cre <= r < max_cre,
    {
        min_cre + random_number % (max_cre - min_cre)
    }

    /// Adds `points`; once the total reaches `puntos_para_crecer` the plant
    /// moves to its next phase, the points start again from zero, and the
    /// frame to show is returned.
    pub fn grow_by(&mut self, points: u32, puntos_para_crecer: u32) -> (frame: Option<i32>)
        requires
            old(self)@.grow_points + points <= u32::MAX,
        ensures
            ({
                let total = old(self)@.grow_points + points;
                if total >= puntos_para_crecer {
                    &&& final(self)@ == (PlantaView {
                        grow_points: 0,
                        fase_actual: next_phase(old(self)@.fase_actual),
                        ..old(self)@
                    })
                    &&& frame == Some(phase_index(next_phase(old(self)@.fase_actual)) as i32)
                } else {
                    &&& final(self)@ == (PlantaView { grow_points: total as u32, ..old(self)@ })
                    &&& frame is None
                }
            }),
    {
        self.grow_points = self.grow_points + points;
        if self.grow_points >= puntos_para_crecer {
            let (frame, fase) = match self.fase_actual {
                FasesPlantas::Bebe => (1, FasesPlantas::Infancia),
                FasesPlantas::Infancia => (2, FasesPlantas::Adolescencia),
                FasesPlantas::Adolescencia => (3, FasesPlantas::Juventud),
                _ => (4, FasesPlantas::Madura),
            };
            self.fase_actual = fase;
            self.grow_points = 0;
            return Some(frame);
        }
        None
    }

    /// One growth tick: `growth_points` for the random number are added
    /// (see `grow_by`).
    pub fn grow_tick(
        &mut self,
        random_number: u32,
        min_cre: u32,
        max_cre: u32,
        puntos_para_crecer: u32,
    ) -> (frame: Option<i32>)
        requires
            min_cre < max_cre,
            old(self)@.grow_points + growth_points(random_number, min_cre, max_cre) <= u32::MAX,
        ensures
            ({
                let total = old(self)@.grow_points + growth_points(random_number, min_cre, max_cre);
                if total >= puntos_para_crecer {
                    &&& final(self)@ == (PlantaView {
                        grow_points: 0,
                        fase_actual: next_phase(old(self)@.fase_actual),
                        ..old(self)@
                    })
                    &&& frame == Some(phase_index(next_phase(old(self)@.fase_actual)) as i32)
                } else {
                    &&& final(self)@ == (PlantaView { grow_points: total as u32, ..old(self)@ })
                    &&& frame is None
                }
            }),
    {
        let points = Self::grow_increment(random_number, min_cre, max_cre);
        self.grow_by(points, puntos_para_crecer)
    }

    pub fn is_mature(&self) -> (r: bool)
        ensures
            r == (self@.fase_actual == FasesPlantas::Madura),
    {
        match self.fase_actual {
            FasesPlantas::Madura => true,
            _ => false,
        }
    }

    /// The fruit, once the plant is mature.
    pub fn harvest(&self) -> (r: Option<ItemRef>)
        requires
            self@.fase_actual == FasesPlantas::Madura ==> self@.fruit_data is Some,
        ensures
            r == if self@.fase_actual == FasesPlantas::Madura {
                self@.fruit_data
            } else {
                None
            },
    {
        if self.is_mature() {
            return self.fruit_data;
        }
        None
    }

    /// What picking the plant gives: its fruit data once mature, nothing
    /// before.
    pub fn pick(&self) -> (r: Option<ItemRef>)
        ensures
            r == if self@.fase_actual == FasesPlantas::Madura {
                self@.fruit_data
            } else {
                None
            },
    {
        if self.is_mature() {
            return self.fruit_data;
        }
        None
    }
}

/// Growth never goes back: one step moves a plant at most one phase on,
/// and a mature plant stays mature.
pub proof fn lemma_growth_monotone(f: FasesPlantas)
    ensures
        phase_index(f) <= phase_index(next_phase(f)) <= phase_index(f) + 1,
        0 <= phase_index(f) <= 4,
        next_phase(f) == f <==> f == FasesPlantas::Madura,
{
}

/// A plant that starts as a seedling is mature after four steps, and not
/// before.
pub proof fn lemma_four_steps_to_maturity()
    ensures
        next_phase(next_phase(next_phase(next_phase(FasesPlantas::Bebe))))
            == FasesPlantas::Madura,
        next_phase(next_phase(next_phase(FasesPlantas::Bebe))) != FasesPlantas::Madura,
{
}

} // verus!
