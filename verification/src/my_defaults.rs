//! The plugin group of the game: which engine parts it is made of, and in
//! what order they are added.

use vstd::prelude::*;

verus! {

/// One part of the engine.
#[derive(Clone, Copy, Debug, PartialEq, Eq, Structural)]
pub enum PluginKind {
    Log,
    Core,
    Transform,
    Diagnostics,
    Input,
    Window,
    Asset,
    Scene,
    Render,
    Sprite,
    Pbr,
    Ui,
    Text,
    Audio,
    Gltf,
    Winit,
    Wgpu,
}

/// Which of the optional parts are switched on.
#[derive(Clone, Copy, Debug, PartialEq, Eq, Structural)]
pub struct Features {
    pub render: bool,
    pub sprite: bool,
    pub pbr: bool,
    pub ui: bool,
    pub text: bool,
    pub audio: bool,
    pub gltf: bool,
    pub winit: bool,
    pub wgpu: bool,
}

/// The plugin group of the game.
#[derive(Clone, Copy, Debug, PartialEq, Eq, Structural)]
pub struct MyDefaultPlugins;

/// The parts that are always added, in order.
pub open spec fn base_plugins() -> Seq<PluginKind> {
    seq![
        PluginKind::Log,
        PluginKind::Core,
        PluginKind::Transform,
        PluginKind::Diagnostics,
        PluginKind::Input,
        PluginKind::Window,
        PluginKind::Asset,
        PluginKind::Scene,
    ]
}

/// `kind` where it is switched on, nothing where it is not.
pub open spec fn optional(on: bool, kind: PluginKind) -> Seq<PluginKind> {
    if on {
        seq![kind]
    } else {
        Seq::empty()
    }
}

/// The parts of the group under `features`: the base parts, then each
/// optional part that is switched on, in a fixed order.
pub open spec fn plugin_list(features: Features) -> Seq<PluginKind> {
    base_plugins() + optional(features.render, PluginKind::Render) + optional(
        features.sprite,
        PluginKind::Sprite,
    ) + optional(features.pbr, PluginKind::Pbr) + optional(features.ui, PluginKind::Ui) + optional(
        features.text,
        PluginKind::Text,
    ) + optional(features.audio, PluginKind::Audio) + optional(features.gltf, PluginKind::Gltf)
        + optional(features.winit, PluginKind::Winit) + optional(features.wgpu, PluginKind::Wgpu)
}

/// Appends `kind` to `group` where it is switched on.
fn add_optional(group: &mut Vec<PluginKind>, on: bool, kind: PluginKind)
    ensures
        final(group)@ == old(group)@ + optional(on, kind),
{
    if on {
        group.push(kind);
    }
    assert(group@ =~= old(group)@ + optional(on, kind));
}

impl MyDefaultPlugins {
    /// The parts of the group under `features`, in the order in which
    /// they are added.
    pub fn build(&self, features: Features) -> (group: Vec<PluginKind>)
        ensures
            group@ == plugin_list(features),
    {
        let mut group: Vec<PluginKind> = Vec::new();
        group.push(PluginKind::Log);
        group.push(PluginKind::Core);
        group.push(PluginKind::Transform);
        group.push(PluginKind::Diagnostics);
        group.push(PluginKind::Input);
        group.push(PluginKind::Window);
        group.push(PluginKind::Asset);
        group.push(PluginKind::Scene);
        assert(group@ =~= base_plugins());
        add_optional(&mut group, features.render, PluginKind::Render);
        add_optional(&mut group, features.sprite, PluginKind::Sprite);
        add_optional(&mut group, features.pbr, PluginKind::Pbr);
        add_optional(&mut group, features.ui, PluginKind::Ui);
        add_optional(&mut group, features.text, PluginKind::Text);
        add_optional(&mut group, features.audio, PluginKind::Audio);
        add_optional(&mut group, features.gltf, PluginKind::Gltf);
        add_optional(&mut group, features.winit, PluginKind::Winit);
        add_optional(&mut group, features.wgpu, PluginKind::Wgpu);
        group
    }
}

} // verus!
