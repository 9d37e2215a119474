//! Team bookkeeping: deployable teams, their instances and experience.

use vstd::prelude::*;

verus! {

/// A qualitative competence a team can hold.
#[derive(Clone, Copy, PartialEq, Eq, Structural, Debug)]
pub enum Aspect {
    Science,
    Politics,
    Logistics,
    Culture,
}

/// A team archetype, created once by content.
#[derive(Clone, Debug)]
pub struct Team {
    pub id: usize,
    pub name: String,
    pub locked: bool,
    pub default: bool,
    pub aspects: Vec<Aspect>,
    pub establish_cost: usize,
    pub train_cost: usize,
}

/// The deployment state of a team instance.
#[derive(Clone, Copy, PartialEq, Eq, Structural, Debug)]
pub enum TeamStatus {
    Ready,
    Injured,
    Lost,
    Training,
    Deployed,
    DeployedAtRisk,
    DeployedInjured,
}

/// One fielded instance of a team, levelling up as it gains experience.
#[derive(Clone, Copy, PartialEq, Eq, Structural, Debug)]
pub struct TeamInstance {
    pub id: usize,
    pub team_id: usize,
    pub status: TeamStatus,
    pub level: usize,
    pub xp: usize,
}

/// Experience points needed to advance one level.
pub const XP_PER_LEVEL: usize = 3;

impl TeamInstance {
    /// The instance keeps its experience strictly below one level's worth.
    pub open spec fn wf(&self) -> bool {
        self.xp < XP_PER_LEVEL
    }

    /// Award one experience point; on reaching a level's worth, advance one
    /// level and reset the experience counter.
    pub fn gain_xp(&mut self)
        requires
            old(self).wf(),
            old(self).level < usize::MAX,
        ensures
            final(self).wf(),
            old(self).xp + 1 == XP_PER_LEVEL ==> final(self).level == old(self).level + 1
                && final(self).xp == 0,
            old(self).xp + 1 < XP_PER_LEVEL ==> final(self).level == old(self).level
                && final(self).xp == old(self).xp + 1,
            final(self).id == old(self).id && final(self).team_id == old(self).team_id
                && final(self).status == old(self).status,
    {
        self.xp = self.xp + 1;
        if self.xp >= XP_PER_LEVEL {
            self.level = self.level + 1;
            self.xp = 0;
        }
    }
}

} // verus!
