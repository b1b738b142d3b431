use idevice::tcp::adapter::{ConnectionFault, ConnectionStatus};
use idevice::tcp::handle::close_decisions;

#[test]
fn errored_connections_are_closed_and_reported_unless_closed_by_peer() {
    let statuses = vec![
        (49152, ConnectionStatus::Connected),
        (49153, ConnectionStatus::Error(ConnectionFault::ConnectionReset)),
        (49154, ConnectionStatus::WaitingForSyn),
        (49155, ConnectionStatus::Error(ConnectionFault::UnexpectedEof)),
    ];
    assert_eq!(close_decisions(&statuses), vec![(49153, true), (49155, false)]);
    assert!(close_decisions(&vec![]).is_empty());
}
