use vstd::prelude::*;

verus! {

/// What a tool does to the tile in front of the player.
#[derive(PartialEq, Eq, Structural, Debug, Clone, Copy)]
pub enum Efecto {
    QuitarPasto,
    AumentarFertilidad,
    RevivirTierra,
    ConstruirPuente,
    RecogerFruto,
}

/// The terrain a tile gets when `efecto` is used on a tile of `terrain`,
/// or `None` when the tool does nothing there.
pub open spec fn terrain_after(efecto: Efecto, terrain: i32) -> Option<i32> {
    match efecto {
        Efecto::AumentarFertilidad => if terrain == 2 || terrain == 3 {
            Some((terrain - 1) as i32)
        } else {
            None
        },
        Efecto::ConstruirPuente => if terrain == 5 {
            Some(6i32)
        } else {
            None
        },
        Efecto::QuitarPasto => if terrain == 4 {
            Some(3i32)
        } else {
            None
        },
        Efecto::RecogerFruto => None,
        Efecto::RevivirTierra => if terrain == 0 {
            Some(3i32)
        } else {
            None
        },
    }
}

/// Each tool works only on its own terrain, and always the same way: the
/// fertilizer turns terrain 2 or 3 into the terrain one below, the
/// grass remover turns 4 into 3, the reviver turns 0 into 3, the bridge
/// builder turns 5 into 6, and the fruit picker changes nothing. On every
/// other terrain the tool does nothing.
pub proof fn lemma_tools_act_only_on_their_terrain(efecto: Efecto, terrain: i32)
    ensures
        efecto == Efecto::AumentarFertilidad ==> (terrain_after(efecto, terrain) is Some <==> (
        terrain == 2 || terrain == 3)),
        efecto == Efecto::AumentarFertilidad && terrain_after(efecto, terrain) is Some
            ==> terrain_after(efecto, terrain).unwrap() == terrain - 1,
        efecto == Efecto::QuitarPasto ==> (terrain_after(efecto, terrain) is Some <==> terrain
            == 4),
        efecto == Efecto::QuitarPasto && terrain_after(efecto, terrain) is Some ==> terrain_after(
            efecto,
            terrain,
        ).unwrap() == 3,
        efecto == Efecto::RevivirTierra ==> (terrain_after(efecto, terrain) is Some <==> terrain
            == 0),
        efecto == Efecto::RevivirTierra && terrain_after(efecto, terrain) is Some
            ==> terrain_after(efecto, terrain).unwrap() == 3,
        efecto == Efecto::ConstruirPuente ==> (terrain_after(efecto, terrain) is Some <==> terrain
            == 5),
        efecto == Efecto::ConstruirPuente && terrain_after(efecto, terrain) is Some
            ==> terrain_after(efecto, terrain).unwrap() == 6,
        efecto == Efecto::RecogerFruto ==> terrain_after(efecto, terrain) is None,
{
}

/// A tool used where it does nothing keeps all its uses; a tool that
/// works spends exactly one use and reports itself used up exactly when
/// none is left.
pub proof fn lemma_tool_spends_one_use_only_when_it_works(
    before: Herramienta,
    after: Herramienta,
    terrain: i32,
    r: Result<ToolUse, String>,
)
    requires
        terrain_after(before.efecto, terrain) is Some ==> before.usos > 0,
        match terrain_after(before.efecto, terrain) {
            Some(t) => {
                &&& after == Herramienta { usos: (before.usos - 1) as u16, ..before }
                &&& r == Ok::<ToolUse, String>(ToolUse { new_terrain: t, consumed: after.usos == 0 })
            },
            None => {
                &&& after == before
                &&& r matches Err(m) && m@ == "No fue usada"@
            },
        },
    ensures
        r is Err <==> after.usos == before.usos,
        r is Ok ==> after.usos + 1 == before.usos,
        r matches Ok(u) ==> (u.consumed <==> before.usos == 1),
        after.efecto == before.efecto,
{
}

/// The outcome of a tool that did its work: the tile's new terrain, and
/// whether the tool has no use left.
#[derive(PartialEq, Eq, Structural, Debug, Clone, Copy)]
pub struct ToolUse {
    pub new_terrain: i32,
    pub consumed: bool,
}

/// A tool with an effect and a number of uses left.
#[derive(PartialEq, Eq, Structural, Debug, Clone, Copy)]
pub struct Herramienta {
    pub efecto: Efecto,
    pub usos: u16,
    pub max_stack: u16,
    pub precio: u16,
}

/// The terrain a tile gets when `efecto` is used on it, if any.
pub fn terrain_after_use(efecto: Efecto, terrain: i32) -> (r: Option<i32>)
    ensures
        r == terrain_after(efecto, terrain),
{
    match efecto {
        Efecto::AumentarFertilidad => {
            if terrain == 2 || terrain == 3 {
                Some(terrain - 1)
            } else {
                None
            }
        },
        Efecto::ConstruirPuente => {
            if terrain == 5 {
                Some(6)
            } else {
                None
            }
        },
        Efecto::QuitarPasto => {
            if terrain == 4 {
                Some(3)
            } else {
                None
            }
        },
        Efecto::RecogerFruto => None,
        Efecto::RevivirTierra => {
            if terrain == 0 {
                Some(3)
            } else {
                None
            }
        },
    }
}

impl Herramienta {
    pub fn get_max_stack(&self) -> (r: u16)
        ensures
            r == self.max_stack,
    {
        self.max_stack
    }

    pub fn get_precio(&self) -> (r: u16)
        ensures
            r == self.precio,
    {
        self.precio
    }

    /// Uses the tool on a tile of `terrain`. When the effect applies, one
    /// use is spent and the tile's new terrain is returned with whether the
    /// tool is used up; otherwise the tool is refused and unchanged.
    pub fn interact(&mut self, terrain: i32) -> (r: Result<ToolUse, String>)
        requires
            terrain_after(old(self).efecto, terrain) is Some ==> old(self).usos > 0,
        ensures
            match terrain_after(old(self).efecto, terrain) {
                Some(t) => {
                    &&& *final(self) == Herramienta { usos: (old(self).usos - 1) as u16, ..*old(self) }
                    &&& r == Ok::<ToolUse, String>(
                        ToolUse { new_terrain: t, consumed: final(self).usos == 0 },
                    )
                },
                None => {
                    &&& *final(self) == *old(self)
                    &&& r matches Err(m) && m@ == "No fue usada"@
                },
            },
    {
        match terrain_after_use(self.efecto, terrain) {
            Some(new_terrain) => {
                self.usos = self.usos - 1;
                Ok(ToolUse { new_terrain, consumed: self.usos == 0 })
            },
            None => Err("No fue usada".to_owned()),
        }
    }
}

} // verus!
