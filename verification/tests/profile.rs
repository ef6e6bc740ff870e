use watt::profile::{PowerProfile, ProfileError, ProfileState};

fn hold(state: &mut ProfileState, profile: PowerProfile) -> u32 {
    state.add_hold(profile, "reason".to_owned(), "app".to_owned(), 7).unwrap()
}

#[test]
fn profile_names_round_trip() {
    for profile in PowerProfile::all() {
        assert_eq!(PowerProfile::from_str(profile.as_str()), Some(profile));
    }
    assert_eq!(PowerProfile::Performance.as_str(), "performance");
    assert_eq!(PowerProfile::Balanced.as_str(), "balanced");
    assert_eq!(PowerProfile::PowerSaver.as_str(), "power-saver");
    assert_eq!(PowerProfile::from_str("power_saver"), None);
    assert_eq!(PowerProfile::from_str(""), None);
    assert_eq!(
        PowerProfile::all(),
        [PowerProfile::Performance, PowerProfile::Balanced, PowerProfile::PowerSaver]
    );
}

#[test]
fn a_new_state_is_balanced_and_holds_nothing() {
    let state = ProfileState::new();
    assert_eq!(state.get_preference(), PowerProfile::Balanced);
    assert_eq!(state.get_effective_profile(), PowerProfile::Balanced);
    assert!(state.get_holds().is_empty());
}

#[test]
fn cookies_count_up_from_one() {
    let mut state = ProfileState::new();
    assert_eq!(hold(&mut state, PowerProfile::PowerSaver), 1);
    assert_eq!(hold(&mut state, PowerProfile::PowerSaver), 2);
    assert_eq!(state.release_hold(1), Ok(()));
    // A released cookie is not handed out again at once.
    assert_eq!(hold(&mut state, PowerProfile::PowerSaver), 3);
    assert_eq!(state.get_holds().len(), 2);
}

#[test]
fn releasing_an_unknown_cookie_fails() {
    let mut state = ProfileState::new();
    assert_eq!(state.release_hold(9), Err(ProfileError::UnknownCookie));
    let cookie = hold(&mut state, PowerProfile::Performance);
    assert_eq!(state.release_hold(cookie), Ok(()));
    assert_eq!(state.release_hold(cookie), Err(ProfileError::UnknownCookie));
}

#[test]
fn the_strongest_hold_is_in_force() {
    let mut state = ProfileState::new();
    state.set_preference(PowerProfile::Performance);
    assert_eq!(state.get_effective_profile(), PowerProfile::Performance);
    let saver = hold(&mut state, PowerProfile::PowerSaver);
    assert_eq!(state.get_effective_profile(), PowerProfile::PowerSaver);
    let balanced = hold(&mut state, PowerProfile::Balanced);
    assert_eq!(state.get_effective_profile(), PowerProfile::Balanced);
    let performance = hold(&mut state, PowerProfile::Performance);
    assert_eq!(state.get_effective_profile(), PowerProfile::Performance);
    state.set_preference(PowerProfile::PowerSaver);
    assert_eq!(state.release_hold(performance), Ok(()));
    assert_eq!(state.get_effective_profile(), PowerProfile::Balanced);
    assert_eq!(state.release_hold(balanced), Ok(()));
    assert_eq!(state.get_effective_profile(), PowerProfile::PowerSaver);
    assert_eq!(state.release_hold(saver), Ok(()));
    assert_eq!(state.get_effective_profile(), PowerProfile::PowerSaver);
    assert_eq!(state.get_preference(), PowerProfile::PowerSaver);
}

#[test]
fn holds_are_handed_out_as_they_were_made() {
    let mut state = ProfileState::new();
    let cookie = state
        .add_hold(PowerProfile::Performance, "compiling".to_owned(), "cargo".to_owned(), 42)
        .unwrap();
    let holds = state.get_holds();
    assert_eq!(holds.len(), 1);
    assert_eq!(holds[0].cookie, cookie);
    assert_eq!(holds[0].profile, PowerProfile::Performance);
    assert_eq!(holds[0].reason, "compiling");
    assert_eq!(holds[0].application_id, "cargo");
    assert_eq!(holds[0].timestamp, 42);
    assert_eq!(holds[0].copy(), holds[0]);
}

#[test]
fn the_default_state_is_a_new_state() {
    let mut state = ProfileState::default();
    assert_eq!(state.get_preference(), PowerProfile::Balanced);
    assert!(state.get_holds().is_empty());
    assert_eq!(hold(&mut state, PowerProfile::Performance), 1);
}
