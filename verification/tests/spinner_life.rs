//! The spinner's lifecycle decisions.

use cli_ui::prompt::spinner::{spin_start_state, spin_step, SpinAction, SpinEvent, Status};

#[test]
fn spinner_starts_once_and_ends_with_its_line() {
    let s0 = spin_start_state();
    let (s1, a1) = spin_step(s0, SpinEvent::Start);
    assert_eq!(a1, SpinAction::Launch);
    assert!(s1.running && s1.started);
    let (s2, a2) = spin_step(s1, SpinEvent::Start);
    assert_eq!(a2, SpinAction::Ignore);
    assert_eq!(s2, s1);
    let (s3, a3) = spin_step(s2, SpinEvent::Cancel);
    assert_eq!(a3, SpinAction::Finish(Status::Cancel));
    assert!(s3.cancelled && !s3.running);
    let (_, a4) = spin_step(s3, SpinEvent::Drop);
    assert_eq!(a4, SpinAction::Ignore);
    let (s5, _) = spin_step(s0, SpinEvent::Start);
    assert_eq!(spin_step(s5, SpinEvent::Drop).1, SpinAction::Erase);
    assert_eq!(spin_step(s5, SpinEvent::Stop).1, SpinAction::Finish(Status::Submit));
    assert_eq!(spin_step(s5, SpinEvent::Error).1, SpinAction::Finish(Status::Error));
    assert_eq!(spin_step(s5, SpinEvent::Clear).1, SpinAction::Erase);
}
