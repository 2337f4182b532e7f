use hidcli::cli::types::DeviceMode;
use hidcli::communicator::discovery::{PRODUCT_ID_APP, PRODUCT_ID_BOOTLOADER, VENDOR_ID};
use hidcli::communicator::mode_switch::{
    ModeCommand, ModeRequest, PendingSwitch, PollStep, Session, SwitchOutcome,
    REFRESH_INTERVAL_NANOS, SWITCH_TIMEOUT_NANOS,
};
use hidcli::communicator::{
    find_communicator, CommunicationError, CommunicatorBuilder, DeviceIdentity,
};

fn entry(vendor_id: u16, product_id: u16, path: &str) -> DeviceIdentity {
    DeviceIdentity {
        vendor_id,
        product_id,
        path: path.as_bytes().to_vec(),
    }
}

#[test]
fn test_device_mode_names() {
    assert_eq!(DeviceMode::App.name(), "app");
    assert_eq!(DeviceMode::Bootloader.name(), "bootloader");
    assert_eq!(DeviceMode::App.other(), DeviceMode::Bootloader);
    assert_eq!(DeviceMode::Bootloader.other(), DeviceMode::App);
}

#[test]
fn test_communication_error_messages() {
    assert_eq!(
        CommunicationError::DeviceReSearchTimeout.message(),
        "Timed out while searching for device after mode change"
    );
    assert_eq!(
        CommunicationError::TooManyDevices.message(),
        "too many devices found"
    );
    assert_eq!(
        CommunicationError::StillInWrongMode(DeviceMode::App).message(),
        "device is still in app"
    );
    assert_eq!(
        CommunicationError::StillInWrongMode(DeviceMode::Bootloader).message(),
        "device is still in bootloader"
    );
}

#[test]
fn test_identity_constants() {
    assert_eq!(VENDOR_ID, 0x03EB);
    assert_eq!(PRODUCT_ID_APP, 0x2041);
    assert_eq!(PRODUCT_ID_BOOTLOADER, 0x2067);
}

#[test]
fn test_from_dev_info() {
    assert_eq!(
        CommunicatorBuilder::from_dev_info(4, &entry(0x03EB, 0x2041, "a")),
        Some(CommunicatorBuilder {
            index: 4,
            mode: DeviceMode::App
        })
    );
    assert_eq!(
        CommunicatorBuilder::from_dev_info(0, &entry(0x03EB, 0x2067, "a")),
        Some(CommunicatorBuilder {
            index: 0,
            mode: DeviceMode::Bootloader
        })
    );
    assert_eq!(
        CommunicatorBuilder::from_dev_info(0, &entry(0x03EB, 0x2042, "a")),
        None
    );
    assert_eq!(
        CommunicatorBuilder::from_dev_info(0, &entry(0x03EC, 0x2041, "a")),
        None
    );
    assert_eq!(
        CommunicatorBuilder::from_dev_info(0, &entry(0x2041, 0x03EB, "a")),
        None
    );
}

#[test]
fn test_find_communicator_nothing_attached() {
    assert_eq!(find_communicator(&[]), Ok(None));
    assert_eq!(
        find_communicator(&[
            entry(0x046d, 0xc077, "/dev/hidraw0"),
            entry(0x03EB, 0x2040, "/dev/hidraw1"),
        ]),
        Ok(None)
    );
}

#[test]
fn test_find_communicator_one_device() {
    assert_eq!(
        find_communicator(&[
            entry(0x046d, 0xc077, "/dev/hidraw0"),
            entry(0x03EB, 0x2041, "/dev/hidraw1"),
            entry(0x046d, 0xc31c, "/dev/hidraw2"),
        ]),
        Ok(Some(CommunicatorBuilder {
            index: 1,
            mode: DeviceMode::App
        }))
    );
    assert_eq!(
        find_communicator(&[entry(0x03EB, 0x2067, "/dev/hidraw7")]),
        Ok(Some(CommunicatorBuilder {
            index: 0,
            mode: DeviceMode::Bootloader
        }))
    );
}

#[test]
fn test_find_communicator_one_device_with_several_entries() {
    // the entries of one physical device share their path: the first one is taken
    assert_eq!(
        find_communicator(&[
            entry(0x046d, 0xc077, "1-4:1.0"),
            entry(0x03EB, 0x2041, "1-5:1.0"),
            entry(0x03EB, 0x2041, "1-5:1.0"),
            entry(0x03EB, 0x2041, "1-5:1.0"),
        ]),
        Ok(Some(CommunicatorBuilder {
            index: 1,
            mode: DeviceMode::App
        }))
    );
    assert_eq!(
        find_communicator(&[
            entry(0x03EB, 0x2067, "1-5:1.0"),
            entry(0x03EB, 0x2041, "1-5:1.0"),
        ]),
        Ok(Some(CommunicatorBuilder {
            index: 0,
            mode: DeviceMode::Bootloader
        }))
    );
}

#[test]
fn test_find_communicator_too_many_devices() {
    assert_eq!(
        find_communicator(&[
            entry(0x03EB, 0x2041, "1-5:1.0"),
            entry(0x03EB, 0x2041, "1-6:1.0"),
        ]),
        Err(CommunicationError::TooManyDevices)
    );
    assert_eq!(
        find_communicator(&[
            entry(0x03EB, 0x2041, "1-5:1.0"),
            entry(0x03EB, 0x2041, "1-5:1.0"),
            entry(0x046d, 0xc077, "1-4:1.0"),
            entry(0x03EB, 0x2067, "1-5:1.01"),
        ]),
        Err(CommunicationError::TooManyDevices)
    );
    assert_eq!(
        find_communicator(&[
            entry(0x03EB, 0x2067, "1-5:1.0"),
            entry(0x03EB, 0x2041, "1-5:1.1"),
        ]),
        Err(CommunicationError::TooManyDevices)
    );
    assert_eq!(
        find_communicator(&[entry(0x03EB, 0x2067, ""), entry(0x03EB, 0x2067, "x")]),
        Err(CommunicationError::TooManyDevices)
    );
}

#[test]
fn test_mode_commands() {
    assert_eq!(ModeCommand::EnterBootloader.bytes(), &[0x08, 0x42]);
    assert_eq!(ModeCommand::EnterApp.bytes(), &[0x00, 0xFF, 0xFF]);
    assert_eq!(
        ModeCommand::leaving(DeviceMode::App),
        ModeCommand::EnterBootloader
    );
    assert_eq!(
        ModeCommand::leaving(DeviceMode::Bootloader),
        ModeCommand::EnterApp
    );
}

#[test]
fn test_switch_timing() {
    assert_eq!(SWITCH_TIMEOUT_NANOS, 5_000_000_000);
    assert_eq!(REFRESH_INTERVAL_NANOS, 100_000_000);
}

#[test]
fn test_request_mode_already_there() {
    for mode in [DeviceMode::App, DeviceMode::Bootloader] {
        let session = Session::connected(mode);
        assert_eq!(session.current_mode(), mode);
        match session.request_mode(mode) {
            ModeRequest::Ready(session) => assert_eq!(session.current_mode(), mode),
            ModeRequest::Switch { .. } => panic!("nothing has to be sent"),
        }
    }
}

fn start_switch(from: DeviceMode, desired: DeviceMode) -> (ModeCommand, PendingSwitch) {
    match Session::connected(from).request_mode(desired) {
        ModeRequest::Switch { command, pending } => (command, pending),
        ModeRequest::Ready(_) => panic!("the device has to change its mode"),
    }
}

#[test]
fn test_request_mode_sends_the_command_of_the_current_mode() {
    let (command, pending) = start_switch(DeviceMode::App, DeviceMode::Bootloader);
    assert_eq!(command, ModeCommand::EnterBootloader);
    assert_eq!(command.bytes(), &[0x08, 0x42]);
    assert_eq!(pending.desired_mode(), DeviceMode::Bootloader);

    let (command, pending) = start_switch(DeviceMode::Bootloader, DeviceMode::App);
    assert_eq!(command, ModeCommand::EnterApp);
    assert_eq!(command.bytes(), &[0x00, 0xFF, 0xFF]);
    assert_eq!(pending.desired_mode(), DeviceMode::App);
}

/// Runs the search of a switch to the bootloader. The device shows up in the
/// search that starts `appears_after` nanoseconds after the command, if at
/// all; each search takes `search_nanos`. Gives the times at which the
/// searches started, and how the switch ended.
fn run_switch(
    appears_after: Option<u128>,
    found_mode: DeviceMode,
    search_nanos: u128,
) -> (Vec<u128>, Result<DeviceMode, CommunicationError>) {
    let (_, mut pending) = start_switch(DeviceMode::App, DeviceMode::Bootloader);
    let mut now: u128 = 0;
    let mut searches = Vec::new();
    loop {
        searches.push(now);
        let found = match appears_after {
            Some(after) if now >= after => Some(CommunicatorBuilder {
                index: 2,
                mode: found_mode,
            }),
            _ => None,
        };
        now += search_nanos;
        match pending.poll(Ok(found), now) {
            PollStep::Open {
                candidate,
                pending: opening,
            } => {
                assert_eq!(Some(candidate), found);
                return match opening.opened(candidate) {
                    SwitchOutcome::Switched(session) => (searches, Ok(session.current_mode())),
                    SwitchOutcome::StillInWrongMode { session, error } => {
                        assert_eq!(session.current_mode(), found_mode);
                        (searches, Err(error))
                    }
                };
            }
            PollStep::Retry {
                after_nanos,
                pending: again,
            } => {
                now += after_nanos;
                pending = again;
            }
            PollStep::Failed(error) => return (searches, Err(error)),
        }
    }
}

#[test]
fn test_mode_switch_device_comes_back_as_bootloader() {
    let (searches, outcome) = run_switch(Some(250_000_000), DeviceMode::Bootloader, 0);
    assert_eq!(outcome, Ok(DeviceMode::Bootloader));
    // searched every 100 ms until the device was there
    assert_eq!(searches, &[0, 100_000_000, 200_000_000, 300_000_000]);
}

#[test]
fn test_mode_switch_device_is_there_at_once() {
    let (searches, outcome) = run_switch(Some(0), DeviceMode::Bootloader, 1_000);
    assert_eq!(outcome, Ok(DeviceMode::Bootloader));
    assert_eq!(searches, &[0]);
}

#[test]
fn test_mode_switch_times_out() {
    let (searches, outcome) = run_switch(None, DeviceMode::Bootloader, 0);
    assert_eq!(outcome, Err(CommunicationError::DeviceReSearchTimeout));
    // a search every 100 ms; the one at 5 s is not yet late, the next one is
    assert_eq!(searches.len(), 52);
    for (count, start) in searches.iter().enumerate() {
        assert_eq!(*start, count as u128 * 100_000_000);
    }
    assert_eq!(searches.last(), Some(&5_100_000_000));
}

#[test]
fn test_mode_switch_times_out_with_slow_searches() {
    let (searches, outcome) = run_switch(None, DeviceMode::Bootloader, 900_000_000);
    assert_eq!(outcome, Err(CommunicationError::DeviceReSearchTimeout));
    assert_eq!(searches.len(), 6);
}

#[test]
fn test_mode_switch_device_within_five_seconds() {
    let (_, outcome) = run_switch(Some(4_950_000_000), DeviceMode::Bootloader, 0);
    assert_eq!(outcome, Ok(DeviceMode::Bootloader));
    let (_, outcome) = run_switch(Some(5_000_000_001), DeviceMode::Bootloader, 0);
    assert_eq!(outcome, Ok(DeviceMode::Bootloader));
    let (_, outcome) = run_switch(Some(5_100_000_001), DeviceMode::Bootloader, 0);
    assert_eq!(outcome, Err(CommunicationError::DeviceReSearchTimeout));
}

#[test]
fn test_mode_switch_device_still_in_wrong_mode() {
    let (searches, outcome) = run_switch(Some(100_000_000), DeviceMode::App, 0);
    assert_eq!(
        outcome,
        Err(CommunicationError::StillInWrongMode(DeviceMode::App))
    );
    assert_eq!(searches, &[0, 100_000_000]);
}

#[test]
fn test_poll_boundary_of_the_timeout() {
    let (_, pending) = start_switch(DeviceMode::Bootloader, DeviceMode::App);
    let pending = match pending.poll(Ok(None), 5_000_000_000) {
        PollStep::Retry {
            after_nanos,
            pending,
        } => {
            assert_eq!(after_nanos, 100_000_000);
            assert_eq!(pending.desired_mode(), DeviceMode::App);
            pending
        }
        _ => panic!("the time is not up"),
    };
    match pending.poll(Ok(None), 5_000_000_001) {
        PollStep::Failed(error) => assert_eq!(error, CommunicationError::DeviceReSearchTimeout),
        _ => panic!("the time is up"),
    }
}

#[test]
fn test_poll_found_device_is_opened_even_when_late() {
    let (_, pending) = start_switch(DeviceMode::App, DeviceMode::Bootloader);
    let candidate = CommunicatorBuilder {
        index: 0,
        mode: DeviceMode::Bootloader,
    };
    match pending.poll(Ok(Some(candidate)), 60_000_000_000) {
        PollStep::Open {
            candidate: found,
            pending,
        } => {
            assert_eq!(found, candidate);
            assert_eq!(pending.desired_mode(), DeviceMode::Bootloader);
        }
        _ => panic!("a device that is found is opened"),
    }
}

#[test]
fn test_poll_failed_search_ends_the_switch() {
    let (_, pending) = start_switch(DeviceMode::App, DeviceMode::Bootloader);
    match pending.poll(Err(CommunicationError::TooManyDevices), 0) {
        PollStep::Failed(error) => assert_eq!(error, CommunicationError::TooManyDevices),
        _ => panic!("the search has failed"),
    }
}

#[test]
fn test_opened_in_desired_mode() {
    let (_, pending) = start_switch(DeviceMode::Bootloader, DeviceMode::App);
    let candidate = CommunicatorBuilder {
        index: 1,
        mode: DeviceMode::App,
    };
    match pending.opened(candidate) {
        SwitchOutcome::Switched(session) => assert_eq!(session.current_mode(), DeviceMode::App),
        SwitchOutcome::StillInWrongMode { .. } => panic!("the device has changed its mode"),
    }
}
