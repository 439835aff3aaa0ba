use bevy_steam_audio::cache::{
    may_skip, measures_silence, plan_render, OutputCache, RenderStep, SimulationOutputs,
};
use bevy_steam_audio::materials::TrenchBroomSteamAudioSettings;
use bevy_steam_audio::nodes::ProcessStatus;
use bevy_steam_audio::sources::{SimulationFlags, TickErrors};

#[test]
fn flags_and_bits() {
    assert_eq!(SimulationFlags::empty().bits(), 0);
    assert_eq!(SimulationFlags::all().bits(), 7);
    let flags = SimulationFlags::from_bits_truncate(SimulationFlags::DIRECT | SimulationFlags::PATHING);
    assert_eq!(flags, SimulationFlags { direct: true, reflections: false, pathing: true });
    assert_eq!(flags.bits(), 5);
    assert_eq!(SimulationFlags::from_bits_truncate(0xffff_fff8), SimulationFlags::empty());
    assert_eq!(SimulationFlags::from_bits_truncate(2).bits(), 2);
    assert!(SimulationFlags::empty().is_empty());
    assert!(!flags.is_empty());
}

#[test]
fn flags_survive_the_way_through_their_bits() {
    for bits in 0..8u32 {
        let flags = SimulationFlags::from_bits_truncate(bits);
        assert_eq!(flags.bits(), bits);
        assert_eq!(SimulationFlags::from_bits_truncate(flags.bits()), flags);
        assert_eq!(SimulationFlags::from_bits_truncate(bits + 8), flags);
    }
}

#[test]
fn flags_as_sets() {
    let direct = SimulationFlags::from_bits_truncate(SimulationFlags::DIRECT);
    let reflections = SimulationFlags::from_bits_truncate(SimulationFlags::REFLECTIONS);
    let both = direct.union(reflections);
    assert_eq!(both.bits(), 3);
    assert!(both.contains(direct));
    assert!(both.contains(SimulationFlags::empty()));
    assert!(!direct.contains(both));
    let mut rest = SimulationFlags::all();
    rest.remove(both);
    assert_eq!(rest.bits(), 4);
}

#[test]
fn passes_of_a_source() {
    assert!(SimulationFlags::all().in_direct_pass());
    assert!(!SimulationFlags::from_bits_truncate(6).in_direct_pass());
    assert_eq!(
        SimulationFlags::all().background_passes(),
        Some(SimulationFlags::from_bits_truncate(6))
    );
    assert_eq!(
        SimulationFlags::from_bits_truncate(4).background_passes(),
        Some(SimulationFlags::from_bits_truncate(4))
    );
    assert_eq!(SimulationFlags::from_bits_truncate(1).background_passes(), None);
    assert_eq!(SimulationFlags::empty().background_passes(), None);
}

#[test]
fn tick_without_errors_reports_nothing() {
    let mut errors = TickErrors::new();
    assert!(errors.is_empty());
    assert_eq!(errors.report(), Ok(()));
    errors.push(String::from("door: Failed to convert mesh"));
    errors.clear();
    assert_eq!(errors.report(), Ok(()));
}

#[test]
fn tick_reports_all_errors_once() {
    let mut errors = TickErrors::new();
    errors.push(String::from("door: Failed to convert mesh"));
    assert_eq!(errors.report(), Err(String::from("door: Failed to convert mesh")));
    errors.push(String::from("radio Failed to create AudionimbusSource"));
    errors.push(String::from("wall: Failed to create instanced mesh"));
    assert_eq!(errors.len(), 3);
    assert!(!errors.is_empty());
    assert_eq!(
        errors.report(),
        Err(String::from(
            "door: Failed to convert mesh\nradio Failed to create AudionimbusSource\nwall: Failed to create instanced mesh"
        ))
    );
}

#[test]
fn cache_fills_empty_slots_and_overwrites_covered_ones() {
    let mut cache: OutputCache<f32, f32, f32> = OutputCache::new();
    assert!(!cache.is_complete());
    assert_eq!(cache.direct_params(), None);
    // a direct update fills every slot that is still empty
    cache.publish(
        SimulationFlags::from_bits_truncate(SimulationFlags::DIRECT),
        SimulationOutputs { direct: 1.0, reflections: 2.0, pathing: 3.0 },
    );
    assert!(cache.is_complete());
    assert_eq!(cache.direct_params(), Some(&1.0));
    assert_eq!(cache.reflection_params(), Some(&2.0));
    assert_eq!(cache.pathing_params(), Some(&3.0));
    // the next one leaves the other slots alone
    cache.publish(
        SimulationFlags::from_bits_truncate(SimulationFlags::DIRECT),
        SimulationOutputs { direct: 4.0, reflections: 5.0, pathing: 6.0 },
    );
    assert_eq!(cache.direct_params(), Some(&4.0));
    assert_eq!(cache.reflection_params(), Some(&2.0));
    assert_eq!(cache.pathing_params(), Some(&3.0));
    cache.publish(
        SimulationFlags::from_bits_truncate(SimulationFlags::REFLECTIONS | SimulationFlags::PATHING),
        SimulationOutputs { direct: 7.0, reflections: 8.0, pathing: 9.0 },
    );
    assert_eq!(cache.direct_params(), Some(&4.0));
    assert_eq!(cache.reflection_params(), Some(&8.0));
    assert_eq!(cache.pathing_params(), Some(&9.0));
}

#[test]
fn render_steps() {
    assert_eq!(plan_render(true, true, true), RenderStep::Silent);
    assert_eq!(plan_render(true, true, false), RenderStep::Silent);
    assert_eq!(plan_render(true, false, false), RenderStep::Reset);
    assert_eq!(plan_render(false, true, false), RenderStep::Reset);
    assert_eq!(plan_render(false, true, true), RenderStep::Process);
    assert_eq!(plan_render(false, false, true), RenderStep::Process);
    assert!(may_skip(true, true));
    assert!(!may_skip(true, false));
    assert!(!may_skip(false, true));
    assert!(measures_silence(ProcessStatus::OutputsModified, true));
    assert!(!measures_silence(ProcessStatus::OutputsModified, false));
    assert!(!measures_silence(ProcessStatus::ClearAllOutputs, true));
}

#[test]
fn first_matching_pattern_decides() {
    let settings = TrenchBroomSteamAudioSettings::empty()
        .map_material("*brick*", "brick")
        .map_material("*concrete*", "concrete")
        .map_material("*wood*", "wood")
        .map_material("floor_?", "carpet")
        .map_material("*", "last");
    assert_eq!(settings.material_mapping.len(), 5);
    assert_eq!(settings.material_for("textures/red_brick_02", "generic"), "brick");
    assert_eq!(settings.material_for("textures/Concrete_Wall", "generic"), "concrete");
    assert_eq!(settings.material_for("WOOD", "generic"), "wood");
    // both patterns match: the earlier one wins
    assert_eq!(settings.material_for("brick_on_concrete", "generic"), "brick");
    assert_eq!(settings.material_for("floor_3", "generic"), "carpet");
    assert_eq!(settings.material_for("floor_33", "generic"), "last");
}

#[test]
fn name_without_pattern_gets_the_fallback() {
    let settings = TrenchBroomSteamAudioSettings::empty()
        .map_material("*brick*", 1u8)
        .map_material("metal", 2u8);
    assert_eq!(settings.material_for("textures/plaster", 0), 0);
    // a pattern matches the whole name, not a part of it
    assert_eq!(settings.material_for("metal_grate", 0), 0);
    assert_eq!(settings.material_for("Metal", 0), 2);
    assert_eq!(settings.material_for("*brick*", 0), 1);
    assert_eq!(TrenchBroomSteamAudioSettings::empty().material_for("brick", 9u8), 9);
}
