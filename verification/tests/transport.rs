use touch_display::transport::{Adapter, BusEvent, Channel, LineState};
use touch_display::SpiFault;

#[test]
fn fresh_adapter_is_idle() {
    let a = Adapter::new();
    assert_eq!(a.line_level(), LineState::Released);
    assert!(a.events().is_empty());
}

#[test]
fn command_then_data_transcript() {
    let mut a = Adapter::new();
    assert_eq!(a.send_command(&vec![0x29], Ok(())), Ok(()));
    assert_eq!(a.send_data(&vec![0x01, 0x02], Ok(())), Ok(()));
    // the select line declares the command channel for exactly the
    // first transaction and the data channel for exactly the second,
    // and rests deasserted between and after the two
    assert_eq!(
        a.events().as_slice(),
        &[
            BusEvent::Select(Channel::Command),
            BusEvent::Clock(0x29),
            BusEvent::Release,
            BusEvent::Select(Channel::Data),
            BusEvent::Clock(0x01),
            BusEvent::Clock(0x02),
            BusEvent::Release,
        ]
    );
    assert_eq!(a.line_level(), LineState::Released);
}

#[test]
fn no_byte_outside_an_assertion() {
    let mut a = Adapter::new();
    a.send_command(&vec![0x2a, 0x00, 0x00, 0x01, 0xdf], Ok(())).unwrap();
    a.send_data(&vec![0xaa, 0x55], Ok(())).unwrap();
    let events = a.events();
    let mut level: Option<Channel> = None;
    for e in events.iter() {
        match e {
            BusEvent::Select(ch) => level = Some(*ch),
            BusEvent::Release => level = None,
            BusEvent::Clock(_) => assert!(level.is_some()),
        }
    }
    assert!(level.is_none());
}

#[test]
fn empty_payload_still_frames_the_transaction() {
    let mut a = Adapter::new();
    assert_eq!(a.send_data(&vec![], Ok(())), Ok(()));
    assert_eq!(
        a.events().as_slice(),
        &[BusEvent::Select(Channel::Data), BusEvent::Release]
    );
}

#[test]
fn fault_during_send_command_propagates() {
    let mut a = Adapter::new();
    let r = a.send_command(&vec![0x29], Err(SpiFault { code: 7 }));
    assert_eq!(r, Err(SpiFault { code: 7 }));
    // the line is left caller-inspectable and deasserted, no byte was
    // recorded as clocked, and nothing was retried
    assert_eq!(a.line_level(), LineState::Released);
    assert_eq!(
        a.events().as_slice(),
        &[BusEvent::Select(Channel::Command), BusEvent::Release]
    );
}

#[test]
fn fault_does_not_poison_the_adapter() {
    let mut a = Adapter::new();
    assert!(a.send_data(&vec![0x11], Err(SpiFault { code: 3 })).is_err());
    assert_eq!(a.send_data(&vec![0x11], Ok(())), Ok(()));
    assert_eq!(
        a.events().as_slice(),
        &[
            BusEvent::Select(Channel::Data),
            BusEvent::Release,
            BusEvent::Select(Channel::Data),
            BusEvent::Clock(0x11),
            BusEvent::Release,
        ]
    );
}

#[test]
fn stepwise_transaction_matches_composite() {
    let mut a = Adapter::new();
    a.begin(Channel::Command);
    assert_eq!(a.line_level(), LineState::Asserted(Channel::Command));
    assert_eq!(a.transfer(&vec![0x29], Ok(())), Ok(()));
    a.finish();
    let mut b = Adapter::new();
    b.send_command(&vec![0x29], Ok(())).unwrap();
    assert_eq!(a.events(), b.events());
    assert_eq!(a.line_level(), b.line_level());
}

#[test]
fn transfer_fault_records_no_byte() {
    let mut a = Adapter::new();
    a.begin(Channel::Data);
    let r = a.transfer(&vec![0xde, 0xad], Err(SpiFault { code: 9 }));
    assert_eq!(r, Err(SpiFault { code: 9 }));
    assert_eq!(a.events().as_slice(), &[BusEvent::Select(Channel::Data)]);
    a.finish();
    assert_eq!(a.line_level(), LineState::Released);
}
