use vstd::prelude::*;

use crate::program::Program;

verus! {

/// How fragments blend with the frame: no blending, or standard
/// source-alpha blending.
#[derive(Clone, Copy, Debug, PartialEq, Eq, Structural)]
pub enum BlendMode {
    Disabled,
    Alpha,
}

/// How the depth test runs.  `Reversed` uses the greater-or-equal
/// comparison, matching the reversed-depth convention of the camera's
/// infinite-far projection; `Standard` selects the conventional
/// less-or-equal direction; `Equal` keeps only exact matches.
#[derive(Clone, Copy, Debug, PartialEq, Eq, Structural)]
pub enum DepthTestMode {
    Disabled,
    Equal,
    Standard,
    Reversed,
}

/// One device-state command of a material bind, with the device's own
/// enumerant values (BLEND, DEPTH_TEST, the blend factors, the depth
/// comparisons).  The unverified shell issues them one for one.
#[derive(Clone, Copy, Debug, PartialEq, Eq, Structural)]
pub enum GlCommand {
    Enable(u32),
    Disable(u32),
    BlendFunc(u32, u32),
    DepthFunc(u32),
    BindTextureUnit(u32, u32),
    UseProgram(u32),
    BindBuffer(u32, u32),
    BindBufferBase(u32, u32, u32),
    BindImageTexture(u32, u32, u32, u32),
}

/// The commands that apply a blend mode: BLEND is 0x0BE2, SRC_ALPHA is
/// 0x0302, ONE_MINUS_SRC_ALPHA is 0x0303.
pub open spec fn spec_blend_commands(b: BlendMode) -> Seq<GlCommand> {
    match b {
        BlendMode::Disabled => seq![GlCommand::Disable(0x0BE2)],
        BlendMode::Alpha => seq![
            GlCommand::Enable(0x0BE2),
            GlCommand::BlendFunc(0x0302, 0x0303),
        ],
    }
}

/// The commands that apply a depth-test mode: DEPTH_TEST is 0x0B71,
/// EQUAL 0x0202, GEQUAL 0x0206, LEQUAL 0x0203.
pub open spec fn spec_depth_commands(d: DepthTestMode) -> Seq<GlCommand> {
    match d {
        DepthTestMode::Disabled => seq![GlCommand::Disable(0x0B71)],
        DepthTestMode::Equal => seq![GlCommand::Enable(0x0B71), GlCommand::DepthFunc(0x0202)],
        DepthTestMode::Standard => seq![GlCommand::Enable(0x0B71), GlCommand::DepthFunc(0x0203)],
        DepthTestMode::Reversed => seq![GlCommand::Enable(0x0B71), GlCommand::DepthFunc(0x0206)],
    }
}

/// What a texture slot resolves to: the handle of the last texture
/// written to that slot, if any.
pub open spec fn spec_tex_lookup(s: Seq<(u32, u32)>, slot: u32) -> Option<u32>
    decreases s.len(),
{
    if s.len() == 0 {
        None
    } else if s.last().0 == slot {
        Some(s.last().1)
    } else {
        spec_tex_lookup(s.drop_last(), slot)
    }
}

pub open spec fn slots_unique(s: Seq<(u32, u32)>) -> bool {
    forall|i: int, j: int| 0 <= i < j < s.len() ==> (#[trigger] s[i]).0 != (#[trigger] s[j]).0
}

/// A shader program together with its texture bindings, blend mode and
/// depth-test mode.
pub struct Material {
    pub program: Program,
    pub textures: Vec<(u32, u32)>,
    pub blend_mode: BlendMode,
    pub depth_test_mode: DepthTestMode,
}

/// The full bind sequence of a material: blend state, depth state, one
/// texture bind per slot, then the program.
pub open spec fn spec_bind_commands(m: Material) -> Seq<GlCommand> {
    spec_blend_commands(m.blend_mode) + spec_depth_commands(m.depth_test_mode)
        + m.spec_textures().map_values(|t: (u32, u32)| GlCommand::BindTextureUnit(t.0, t.1))
        + seq![GlCommand::UseProgram(m.program.spec_handle().spec_get())]
}

impl Material {
    pub open spec fn spec_textures(self) -> Seq<(u32, u32)> {
        self.textures@
    }

    pub open spec fn wf(self) -> bool {
        slots_unique(self.spec_textures())
    }

    /// A material over the given program, with no textures, no blending
    /// and the standard depth test.
    pub fn new(program: Program) -> (m: Material)
        ensures
            m.program == program,
            m.spec_textures() == Seq::<(u32, u32)>::empty(),
            m.blend_mode == BlendMode::Disabled,
            m.depth_test_mode == DepthTestMode::Standard,
            m.wf(),
    {
        let m = Material {
            program,
            textures: Vec::new(),
            blend_mode: BlendMode::Disabled,
            depth_test_mode: DepthTestMode::Standard,
        };
        proof {
            assert(m.spec_textures() =~= Seq::<(u32, u32)>::empty());
        }
        m
    }

    /// Put `texture` in `slot`: one texture per slot, last write wins.
    pub fn set_texture(&mut self, slot: u32, texture: u32)
        requires
            old(self).wf(),
        ensures
            final(self).wf(),
            spec_tex_lookup(final(self).spec_textures(), slot) == Some(texture),
            forall|s2: u32|
                s2 != slot ==> spec_tex_lookup(final(self).spec_textures(), s2) == spec_tex_lookup(
                    old(self).spec_textures(),
                    s2,
                ),
            final(self).program == old(self).program,
            final(self).blend_mode == old(self).blend_mode,
            final(self).depth_test_mode == old(self).depth_test_mode,
    {
        let ghost old_t = self.textures@;
        let mut i: usize = 0;
        let n = self.textures.len();
        while i < n
            invariant
                0 <= i <= n,
                n == self.textures@.len(),
                *self == *old(self),
                self.textures@ == old_t,
                slots_unique(old_t),
                forall|j: int| 0 <= j < i ==> (#[trigger] old_t[j]).0 != slot,
            decreases n - i,
        {
            if self.textures[i].0 == slot {
                let entry = &mut self.textures[i];
                entry.1 = texture;
                proof {
                    assert(slots_unique(old_t));
                    assert(self.textures@ =~= old_t.update(i as int, (slot, texture)));
                    assert forall|a: int, c: int|
                        0 <= a < c < self.textures@.len() implies (#[trigger] self.textures@[a]).0
                        != (#[trigger] self.textures@[c]).0 by {
                        assert(self.textures@[a].0 == old_t[a].0);
                        assert(self.textures@[c].0 == old_t[c].0);
                    }
                    lemma_tex_lookup_update(old_t, i as int, texture, slot);
                    assert forall|s2: u32| s2 != slot implies spec_tex_lookup(
                        self.textures@,
                        s2,
                    ) == spec_tex_lookup(old_t, s2) by {
                        lemma_tex_lookup_update_other(old_t, i as int, texture, s2);
                    }
                }
                return ;
            }
            i = i + 1;
        }
        self.textures.push((slot, texture));
        proof {
            assert(self.textures@.drop_last() =~= old_t);
            assert forall|s2: u32| s2 != slot implies spec_tex_lookup(self.textures@, s2)
                == spec_tex_lookup(old_t, s2) by {
                assert(self.textures@.last().0 == slot);
            }
        }
    }

    /// The slot's texture handle, if one was set.
    pub fn texture_in_slot(&self, slot: u32) -> (r: Option<u32>)
        ensures
            r == spec_tex_lookup(self.spec_textures(), slot),
    {
        proof {
            assert(self.textures@.take(self.textures@.len() as int) =~= self.textures@);
        }
        let mut i: usize = self.textures.len();
        while i > 0
            invariant
                0 <= i <= self.textures@.len(),
                spec_tex_lookup(self.spec_textures(), slot) == spec_tex_lookup(
                    self.textures@.take(i as int),
                    slot,
                ),
            decreases i,
        {
            i = i - 1;
            if self.textures[i].0 == slot {
                proof {
                    assert(self.textures@.take(i + 1).last() == self.textures@[i as int]);
                }
                return Some(self.textures[i].1);
            }
            proof {
                assert(self.textures@.take(i + 1).drop_last() =~= self.textures@.take(i as int));
            }
        }
        None
    }

    /// The device commands that bind this material: apply the blend mode,
    /// apply the depth-test mode, bind each texture to its slot, then use
    /// the program.  The unverified shell issues them in order, so the
    /// material's state changes happen once per group of objects that
    /// share it.
    pub fn bind(&self) -> (r: Vec<GlCommand>)
        ensures
            r@ == spec_bind_commands(*self),
    {
        let mut cmds: Vec<GlCommand> = Vec::new();
        match self.blend_mode {
            BlendMode::Disabled => {
                cmds.push(GlCommand::Disable(0x0BE2));
            },
            BlendMode::Alpha => {
                cmds.push(GlCommand::Enable(0x0BE2));
                cmds.push(GlCommand::BlendFunc(0x0302, 0x0303));
            },
        }
        match self.depth_test_mode {
            DepthTestMode::Disabled => {
                cmds.push(GlCommand::Disable(0x0B71));
            },
            DepthTestMode::Equal => {
                cmds.push(GlCommand::Enable(0x0B71));
                cmds.push(GlCommand::DepthFunc(0x0202));
            },
            DepthTestMode::Standard => {
                cmds.push(GlCommand::Enable(0x0B71));
                cmds.push(GlCommand::DepthFunc(0x0203));
            },
            DepthTestMode::Reversed => {
                cmds.push(GlCommand::Enable(0x0B71));
                cmds.push(GlCommand::DepthFunc(0x0206));
            },
        }
        let ghost head = cmds@;
        let ghost texmap = self.textures@.map_values(
            |t: (u32, u32)| GlCommand::BindTextureUnit(t.0, t.1),
        );
        let mut i: usize = 0;
        while i < self.textures.len()
            invariant
                0 <= i <= self.textures@.len(),
                texmap == self.textures@.map_values(
                    |t: (u32, u32)| GlCommand::BindTextureUnit(t.0, t.1),
                ),
                cmds@ == head + texmap.take(i as int),
            decreases self.textures@.len() - i,
        {
            let t = self.textures[i];
            cmds.push(GlCommand::BindTextureUnit(t.0, t.1));
            proof {
                assert(texmap.take(i + 1) =~= texmap.take(i as int).push(
                    GlCommand::BindTextureUnit(t.0, t.1),
                ));
                assert(cmds@ =~= head + texmap.take(i + 1));
            }
            i = i + 1;
        }
        cmds.push(GlCommand::UseProgram(self.program.handle()));
        proof {
            assert(texmap.take(self.textures@.len() as int) =~= texmap);
            assert(cmds@ =~= spec_bind_commands(*self));
        }
        cmds
    }
}

/// Updating one slot's texture changes that slot's lookup to the new
/// handle.
proof fn lemma_tex_lookup_update(s: Seq<(u32, u32)>, i: int, texture: u32, slot: u32)
    requires
        0 <= i < s.len(),
        s[i].0 == slot,
        slots_unique(s),
    ensures
        spec_tex_lookup(s.update(i, (slot, texture)), slot) == Some(texture),
    decreases s.len(),
{
    let s2 = s.update(i, (slot, texture));
    if i == s.len() - 1 {
        assert(s2.last() == (slot, texture));
    } else {
        assert(s2.last() == s.last());
        assert(s.last().0 != slot);
        assert(s2.drop_last() =~= s.drop_last().update(i, (slot, texture)));
        lemma_tex_lookup_update(s.drop_last(), i, texture, slot);
    }
}

/// Updating one slot leaves every other slot's lookup unchanged.
proof fn lemma_tex_lookup_update_other(s: Seq<(u32, u32)>, i: int, texture: u32, s2: u32)
    requires
        0 <= i < s.len(),
        s[i].0 != s2,
    ensures
        spec_tex_lookup(s.update(i, (s[i].0, texture)), s2) == spec_tex_lookup(s, s2),
    decreases s.len(),
{
    let su = s.update(i, (s[i].0, texture));
    if i == s.len() - 1 {
        assert(su.drop_last() =~= s.drop_last());
    } else {
        assert(su.last() == s.last());
        assert(su.drop_last() =~= s.drop_last().update(i, (s[i].0, texture)));
        lemma_tex_lookup_update_other(s.drop_last(), i, texture, s2);
    }
}

} // verus!
