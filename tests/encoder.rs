use oze_canopen::proto::nmt::NmtCommandSpecifier;
use oze_canopen_viewer::driver::WriteCommand;
use oze_canopen_viewer::encoder::{
    configure_tpdo1_statusword, encode_emcy, encode_nmt, encode_sdo_download, encode_sync,
    encode_write_command, EncodeError, Frame,
};

#[test]
fn sdo_download_controlword() {
    let f = encode_sdo_download(1, 0x6040, 0x00, &[0x06, 0x00]).unwrap();
    assert_eq!(f.cob_id, 0x601);
    assert_eq!(f.data, vec![0x2B, 0x40, 0x60, 0x00, 0x06, 0x00, 0x00, 0x00]);
}

#[test]
fn sdo_download_command_byte_per_length() {
    let one = encode_sdo_download(5, 0x6060, 0x00, &[0x01]).unwrap();
    assert_eq!(one.cob_id, 0x605);
    assert_eq!(one.data, vec![0x2F, 0x60, 0x60, 0x00, 0x01, 0x00, 0x00, 0x00]);
    let four = encode_sdo_download(0x7F, 0x607A, 0x02, &[1, 2, 3, 4]).unwrap();
    assert_eq!(four.cob_id, 0x67F);
    assert_eq!(four.data, vec![0x23, 0x7A, 0x60, 0x02, 1, 2, 3, 4]);
}

#[test]
fn sdo_download_of_five_bytes_is_rejected() {
    assert_eq!(
        encode_sdo_download(1, 0x6040, 0, &[1, 2, 3, 4, 5]),
        Err(EncodeError::SegmentedTransferUnsupported { len: 5 })
    );
    let cmd = WriteCommand::SendSdoDownload {
        node_id: 1,
        index: 0x6040,
        subindex: 0,
        data: vec![1, 2, 3, 4, 5],
    };
    assert_eq!(
        encode_write_command(&cmd),
        Err(EncodeError::SegmentedTransferUnsupported { len: 5 })
    );
}

#[test]
fn sync_and_nmt_frames() {
    assert_eq!(encode_sync(), Frame { cob_id: 0x080, data: vec![] });
    let f = encode_nmt(3, NmtCommandSpecifier::EnterPreOperational);
    assert_eq!(f, Frame { cob_id: 0x000, data: vec![0x80, 3] });
    assert_eq!(encode_nmt(0, NmtCommandSpecifier::StartRemoteNode).data, vec![0x01, 0]);
    assert_eq!(encode_nmt(9, NmtCommandSpecifier::StopRemoteNode).data, vec![0x02, 9]);
    assert_eq!(encode_nmt(9, NmtCommandSpecifier::ResetNode).data, vec![0x81, 9]);
    assert_eq!(encode_nmt(9, NmtCommandSpecifier::ResetCommunication).data, vec![0x82, 9]);
}

#[test]
fn emcy_frame_layout() {
    let f = encode_emcy(4, 0x1000, 0x01, [1, 2, 3, 4, 5]);
    assert_eq!(f.cob_id, 0x084);
    assert_eq!(f.data, vec![0x00, 0x10, 0x01, 1, 2, 3, 4, 5]);
}

#[test]
fn raw_and_pdo_keep_eleven_bits() {
    let raw = WriteCommand::SendRaw { cob_id: 0x1_0123, data: vec![9, 8] };
    let plan = encode_write_command(&raw).unwrap();
    assert_eq!(plan.len(), 1);
    assert_eq!(plan[0].frame, Frame { cob_id: 0x123, data: vec![9, 8] });
    assert_eq!(plan[0].delay_after_ms, 0);
    let pdo = WriteCommand::SendPdo { cob_id: 0x181, data: vec![] };
    let plan = encode_write_command(&pdo).unwrap();
    assert_eq!(plan[0].frame, Frame { cob_id: 0x181, data: vec![] });
}

#[test]
fn tpdo1_statusword_sequence() {
    let plan = configure_tpdo1_statusword(2);
    let got: Vec<(u16, Vec<u8>, u64)> = plan
        .iter()
        .map(|s| (s.frame.cob_id, s.frame.data.clone(), s.delay_after_ms))
        .collect();
    assert_eq!(
        got,
        vec![
            (0x000, vec![0x80, 2], 50),
            (0x602, vec![0x23, 0x00, 0x18, 0x01, 0x82, 0x01, 0x00, 0x80], 10),
            (0x602, vec![0x2F, 0x00, 0x1A, 0x00, 0x00, 0x00, 0x00, 0x00], 10),
            (0x602, vec![0x23, 0x00, 0x1A, 0x01, 0x20, 0x00, 0x41, 0x60], 10),
            (0x602, vec![0x2F, 0x00, 0x1A, 0x00, 0x01, 0x00, 0x00, 0x00], 10),
            (0x602, vec![0x23, 0x00, 0x18, 0x01, 0x82, 0x01, 0x00, 0x00], 10),
            (0x000, vec![0x01, 2], 50),
            (0x602, vec![0x2F, 0x00, 0x18, 0x02, 0x01, 0x00, 0x00, 0x00], 0),
        ]
    );
    let via_command =
        encode_write_command(&WriteCommand::ConfigureTpdo1Statusword { node_id: 2 }).unwrap();
    assert_eq!(via_command, plan);
}
