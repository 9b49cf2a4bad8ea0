//! Choices made when setting up rendering: which GL configuration to use,
//! and when a paint source's target texture must be made anew.

use vstd::prelude::*;

verus! {

/// What a paint source does with its target texture before drawing a
/// frame.
#[derive(Debug, Clone, Copy, PartialEq, Eq, Structural)]
pub enum TextureStep {
    /// Draw nothing this frame.
    Skip,
    /// Draw into the texture it has.
    Reuse,
    /// Make and register a new texture, unregistering the old one first
    /// when it was registered.
    Recreate { unregister_old: bool },
}

/// The step for a frame of `width` x `height`: nothing for an empty frame
/// or a suspended source; a new texture when there is none or its size
/// differs; else the texture it has.
pub open spec fn texture_step_of(width: u32, height: u32, active: bool, current: Option<(u32, u32)>, has_handle: bool) -> TextureStep {
    if width == 0 || height == 0 || !active {
        TextureStep::Skip
    } else {
        match current {
            Some((w, h)) => if w == width && h == height {
                TextureStep::Reuse
            } else {
                TextureStep::Recreate { unregister_old: has_handle }
            },
            None => TextureStep::Recreate { unregister_old: false },
        }
    }
}

/// The texture step of a frame, given the frame size, whether the source
/// is active, the size of its current texture, and whether that texture is
/// registered.
pub fn texture_step(width: u32, height: u32, active: bool, current: Option<(u32, u32)>, has_handle: bool) -> (s: TextureStep)
    ensures
        s == texture_step_of(width, height, active, current, has_handle),
{
    if width == 0 || height == 0 || !active {
        return TextureStep::Skip;
    }
    match current {
        Some((w, h)) => {
            if w == width && h == height {
                TextureStep::Reuse
            } else {
                TextureStep::Recreate { unregister_old: has_handle }
            }
        },
        None => TextureStep::Recreate { unregister_old: false },
    }
}

/// Law: a frame is skipped exactly when it is empty or the source is
/// inactive; the current texture is reused only when it has exactly the
/// frame's size; and any other texture is replaced, the old one unregistered
/// exactly when it has a handle.
pub proof fn law_texture_step(width: u32, height: u32, active: bool, current: Option<(u32, u32)>, has_handle: bool)
    ensures
        (texture_step_of(width, height, active, current, has_handle) == TextureStep::Skip)
            <==> (width == 0 || height == 0 || !active),
        texture_step_of(width, height, active, current, has_handle) == TextureStep::Reuse
            ==> current == Some((width, height)),
        (width > 0 && height > 0 && active && current == Some((width, height)))
            ==> texture_step_of(width, height, active, current, has_handle) == TextureStep::Reuse,
        (width > 0 && height > 0 && active && current.is_some() && current != Some((width, height)))
            ==> texture_step_of(width, height, active, current, has_handle)
                == (TextureStep::Recreate { unregister_old: has_handle }),
        (width > 0 && height > 0 && active && current.is_none())
            ==> texture_step_of(width, height, active, current, has_handle)
                == (TextureStep::Recreate { unregister_old: false }),
{
}

/// Whether a configuration supports transparency; unknown counts as no.
pub open spec fn transparent(c: (Option<bool>, u8)) -> bool {
    match c.0 {
        Some(b) => b,
        None => false,
    }
}

/// Whether configuration `c` replaces the best one so far, `best`: it adds
/// transparency, or it has more samples.
pub open spec fn replaces(c: (Option<bool>, u8), best: (Option<bool>, u8)) -> bool {
    (transparent(c) && !transparent(best)) || c.1 > best.1
}

/// The index of the configuration chosen among `configs`, each given as
/// (supports transparency, number of samples): the first one, replaced in
/// turn by each later one that replaces the best so far; none when there
/// is no configuration.
pub open spec fn chosen_config(configs: Seq<(Option<bool>, u8)>) -> Option<int>
    decreases configs.len(),
{
    if configs.len() == 0 {
        None
    } else if configs.len() == 1 {
        Some(0)
    } else {
        match chosen_config(configs.drop_last()) {
            Some(k) => if replaces(configs.last(), configs[k]) { Some(configs.len() - 1) } else { Some(k) },
            None => None,
        }
    }
}

/// Whether configuration `c` supports transparency.
fn is_transparent(c: (Option<bool>, u8)) -> (b: bool)
    ensures
        b == transparent(c),
{
    match c.0 {
        Some(b) => b,
        None => false,
    }
}

/// The index of the GL configuration to use among `configs`, given as
/// (supports transparency, number of samples); none when there is none.
pub fn choose_config(configs: &Vec<(Option<bool>, u8)>) -> (r: Option<usize>)
    ensures
        match chosen_config(configs@) {
            Some(k) => r == Some(k as usize),
            None => r is None,
        },
{
    if configs.len() == 0 {
        return None;
    }
    let mut best: usize = 0;
    let mut i: usize = 1;
    assert(configs@.subrange(0, 1).len() == 1);
    while i < configs.len()
        invariant
            1 <= i <= configs@.len(),
            best < i,
            chosen_config(configs@.subrange(0, i as int)) == Some(best as int),
        decreases configs@.len() - i,
    {
        let c = configs[i];
        let b = configs[best];
        proof {
            assert(configs@.subrange(0, i + 1).drop_last() =~= configs@.subrange(0, i as int));
            assert(configs@.subrange(0, i + 1)[best as int] == b);
        }
        if (is_transparent(c) && !is_transparent(b)) || c.1 > b.1 {
            best = i;
        }
        i += 1;
    }
    assert(configs@.subrange(0, configs@.len() as int) =~= configs@);
    Some(best)
}

} // verus!
