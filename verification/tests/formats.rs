use takhti::formats::{
    implicit_formats, scanout_attempted, scanout_formats, Attempt, AttemptResult, Format,
};

const LINEAR: u64 = 0;
const INVALID: u64 = 0x00ff_ffff_ffff_ffff;
const TILED: u64 = 0x0100_0000_0000_0001;

fn offered() -> Vec<Format> {
    vec![
        Format { code: 1, modifier: LINEAR },
        Format { code: 1, modifier: TILED },
        Format { code: 1, modifier: INVALID },
        Format { code: 2, modifier: LINEAR },
        Format { code: 2, modifier: u64::MAX },
    ]
}

#[test]
fn rendering_devices_keep_every_format() {
    assert_eq!(scanout_formats(&offered(), true), offered());
}

#[test]
fn display_only_devices_keep_linear_formats() {
    assert_eq!(
        scanout_formats(&offered(), false),
        vec![Format { code: 1, modifier: LINEAR }, Format { code: 2, modifier: LINEAR }]
    );
}

#[test]
fn implicit_formats_have_the_invalid_modifier() {
    assert_eq!(implicit_formats(&offered()), vec![Format { code: 1, modifier: INVALID }]);
    assert_eq!(implicit_formats(&scanout_formats(&offered(), false)), vec![]);
}

#[test]
fn a_failed_attempt_is_made_once_more() {
    assert!(matches!(scanout_attempted(Attempt::First, true, &offered()), AttemptResult::Done));
    assert!(matches!(scanout_attempted(Attempt::Second, true, &offered()), AttemptResult::Done));
    match scanout_attempted(Attempt::First, false, &offered()) {
        AttemptResult::Retry { formats } => {
            assert_eq!(formats, vec![Format { code: 1, modifier: INVALID }])
        }
        _ => panic!("expected a second attempt"),
    }
    assert!(matches!(scanout_attempted(Attempt::Second, false, &offered()), AttemptResult::GiveUp));
}
