use channel_bench::fixture::Fixture;
use channel_bench::matrix::{Capacity, Direction, Implementation, Shape, Trial};

fn trial(shape: Shape, contention: usize) -> Trial {
    Trial { implementation: Implementation::Flume, shape, capacity: Capacity::Bounded(1), contention }
}

#[test]
fn oneshot_send_fixture() {
    assert_eq!(
        trial(Shape::OneshotSend, 0).fixture(),
        Fixture {
            measured: Direction::Send,
            channel_per_sample: true,
            preloaded: 0,
            counterpart: false,
            competitors: 0,
        }
    );
}

#[test]
fn oneshot_recv_fixture_holds_one_value() {
    assert_eq!(
        trial(Shape::OneshotRecv, 0).fixture(),
        Fixture {
            measured: Direction::Recv,
            channel_per_sample: true,
            preloaded: 1,
            counterpart: false,
            competitors: 0,
        }
    );
}

#[test]
fn sustained_send_fixture() {
    for contention in [0, 1, 2, 4] {
        assert_eq!(
            trial(Shape::SustainedSend, contention).fixture(),
            Fixture {
                measured: Direction::Send,
                channel_per_sample: false,
                preloaded: 0,
                counterpart: true,
                competitors: contention,
            }
        );
    }
}

#[test]
fn sustained_recv_fixture() {
    for contention in [0, 1, 2, 4] {
        assert_eq!(
            trial(Shape::SustainedRecv, contention).fixture(),
            Fixture {
                measured: Direction::Recv,
                channel_per_sample: false,
                preloaded: 0,
                counterpart: true,
                competitors: contention,
            }
        );
    }
}

#[test]
fn oneshot_fixture_ignores_contention() {
    assert_eq!(trial(Shape::OneshotSend, 3).fixture().competitors, 0);
    assert_eq!(trial(Shape::OneshotRecv, 3).fixture().competitors, 0);
}
