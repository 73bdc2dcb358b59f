use oze_canopen::interface::{CanOpenInfo, Connection};
use oze_canopen_viewer::driver::{Control, ControlCommand, Driver};
use oze_canopen_viewer::message_log::RawFrame;

fn control(command: ControlCommand, can_name: &str) -> Control {
    Control {
        command,
        connection: Connection { can_name: can_name.to_owned(), bitrate: Some(250_000) },
    }
}

fn frame(cob_id: u16, t: u64) -> Option<RawFrame> {
    Some(RawFrame { cob_id, data: vec![1, 2], timestamp_us: t })
}

#[test]
fn kill_on_control_channel_ends_loop() {
    let mut d = Driver::new(control(ControlCommand::Process, "can0"), CanOpenInfo::default());
    d.process(frame(0x181, 1), None, CanOpenInfo::default());
    assert!(!d.finish_iteration());
    assert_eq!(d.state().data.len(), 1);
    assert!(!d.state().exit_signal);

    d.process(frame(0x182, 2), Some(control(ControlCommand::Kill, "can0")), CanOpenInfo::default());
    assert_eq!(d.state().data.len(), 1);
    assert!(d.finish_iteration());
    assert!(d.state().exit_signal);
    assert_eq!(d.control().command, ControlCommand::Kill);
}

#[test]
fn stop_pauses_ingestion_and_process_resumes() {
    let mut d = Driver::new(control(ControlCommand::Stop, "can0"), CanOpenInfo::default());
    d.process(frame(0x181, 1), None, CanOpenInfo::default());
    assert!(!d.finish_iteration());
    assert_eq!(d.state().data.len(), 0);
    d.process(frame(0x182, 2), Some(control(ControlCommand::Process, "can1")), CanOpenInfo::default());
    d.process(frame(0x183, 3), None, CanOpenInfo::default());
    assert_eq!(d.state().data.len(), 2);
    assert_eq!(d.state().data.get(0).index, 0);
    assert_eq!(d.state().data.get(0).frame.cob_id, 0x182);
    assert_eq!(d.state().data.get(1).index, 1);
    assert_eq!(d.state().can_name, "can1");
    assert_eq!(d.state().bitrate, Some(250_000));
}

#[test]
fn tick_without_frame_changes_nothing_but_info() {
    let mut d = Driver::new(control(ControlCommand::Process, "can0"), CanOpenInfo::default());
    let info = CanOpenInfo { rx_bits: 42, transmitter_socket: true, receiver_socket: false };
    d.process(None, None, info);
    assert_eq!(d.state().data.len(), 0);
    assert_eq!(d.state().info.rx_bits, 42);
    assert!(d.state().info.transmitter_socket);
}

#[test]
fn shutdown_signal_ends_loop() {
    let mut d = Driver::new(control(ControlCommand::Process, "can0"), CanOpenInfo::default());
    d.shutdown();
    assert!(d.finish_iteration());
    assert!(d.state().exit_signal);
}

#[test]
fn log_in_driver_stays_bounded() {
    let mut d = Driver::new(control(ControlCommand::Process, "vcan0"), CanOpenInfo::default());
    for t in 0..600u64 {
        d.process(frame(0x181, t), None, CanOpenInfo::default());
    }
    assert_eq!(d.state().data.len(), 512);
    assert_eq!(d.state().data.get(0).index, 88);
    assert_eq!(d.state().data.get(511).index, 599);
}
