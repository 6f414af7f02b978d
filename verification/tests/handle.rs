use sandbox::handle::SandboxHandle;
use sandbox::lifecycle::SandboxError;
use sandbox::types::SandboxId;

fn handle() -> SandboxHandle {
    match SandboxHandle::create(Ok(SandboxId::new("local-7"))) {
        Ok(handle) => handle,
        Err(_) => panic!("no handle"),
    }
}

#[test]
fn a_handle_starts_with_the_first_generation() {
    let handle = handle();
    assert_eq!(handle.id().as_str(), "local-7");
    assert_eq!(handle.io_generation(), 0);
    assert!(!handle.io_taken());
}

#[test]
fn a_failed_creation_gives_no_handle() {
    assert!(matches!(
        SandboxHandle::create(Err(SandboxError::Cancelled)),
        Err(SandboxError::Cancelled)
    ));
}

#[test]
fn io_is_taken_once_per_generation() {
    let mut handle = handle();
    let first = handle.take_io(Ok("io")).unwrap().unwrap();
    assert_eq!((first.generation, first.streams), (0, "io"));
    assert!(handle.io_taken());
    assert!(matches!(handle.take_io(Ok("more")), Ok(None)));
    assert!(handle.resume(Ok(())).is_ok());
    assert_eq!(handle.io_generation(), 1);
    let second = handle.take_io(Ok("again")).unwrap().unwrap();
    assert_eq!((second.generation, second.streams), (1, "again"));
    assert!(matches!(handle.take_io(Ok("more")), Ok(None)));
}

#[test]
fn io_that_could_not_be_opened_is_not_taken() {
    let mut handle = handle();
    let failed: Result<&str, SandboxError> = Err(SandboxError::Cancelled);
    assert!(matches!(handle.take_io(failed), Err(SandboxError::Cancelled)));
    assert!(!handle.io_taken());
    assert_eq!(handle.take_io(Ok("io")).unwrap().unwrap().streams, "io");
}

#[test]
fn only_a_resume_that_succeeds_begins_a_generation() {
    let mut handle = handle();
    assert!(handle.take_io(Ok(())).is_ok());
    assert!(handle.resume(Err(SandboxError::Unsupported("no"))).is_err());
    assert_eq!(handle.io_generation(), 0);
    assert!(handle.io_taken());
}

#[test]
fn stale_io_is_told_from_current() {
    let mut handle = handle();
    assert!(handle.check_generation(0).is_ok());
    assert!(handle.resume(Ok(())).is_ok());
    match handle.check_generation(0) {
        Err(SandboxError::StaleIoGeneration { stale, current }) => {
            assert_eq!(stale, 0);
            assert_eq!(current, 1);
        }
        _ => panic!("stale io goes unnoticed"),
    }
    assert!(handle.check_generation(1).is_ok());
}
