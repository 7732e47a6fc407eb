use arq_simul::{DataCounter, Link, Network, Simulator, Terminal, Time, PICOS_PER_SEC};
use rand::Rng;

struct Outcome {
    acked_packets: u64,
    counter: DataCounter,
    ran_dry: bool,
}

/// Runs the default scenario (10 Gbit/s, 40-byte headers, 1460-byte payloads,
/// 1 ms propagation) for `duration` picoseconds with window `window` and bit
/// error rate `ber`.
fn simulate(window: u16, ber: f64, duration: u64, seed: u64) -> Outcome {
    let mut net = Network::new();
    let (src, _dst, link) = net.add_link_and_terminals(
        Terminal::create(40, 1460, window),
        Terminal::create(40, 0, window),
        Link::create(10_000_000_000, Time(PICOS_PER_SEC / 1000)),
    );
    let mut sim = Simulator::from_seed(seed);
    let mut clock = Time(0);
    sim.add_events(&net.start(src, clock));
    let mut ran_dry = false;
    while clock.0 < duration {
        match sim.pop() {
            Some(event) => {
                clock = event.due_time;
                let survives = match event.corruption_bits() {
                    Some(bits) => {
                        let prob_tx = (1.0 - ber).powi(bits as i32);
                        sim.rng.gen::<f64>() < prob_tx
                    }
                    None => true,
                };
                assert!(net.can_process(&event, clock));
                let evs = net.process_event(event, clock, survives);
                sim.add_events(&evs);
            }
            None => {
                ran_dry = true;
                break;
            }
        }
    }
    Outcome {
        acked_packets: net.get_ref_terminal_by_addr(src).get_transmitted_packets(),
        counter: net.get_ref_link_by_addr(link).counter(),
        ran_dry,
    }
}

const TENTH_OF_A_SECOND: u64 = PICOS_PER_SEC / 10;

#[test]
fn stop_and_wait_completes_one_packet_per_round_trip() {
    let out = simulate(1, 0.0, TENTH_OF_A_SECOND, 1);
    // Round trip: 2 ms of propagation plus 1.2 us and 32 ns of serialization.
    let round_trip = 2_000_000_000 + 1_200_000 + 32_000;
    assert_eq!(TENTH_OF_A_SECOND / round_trip, 49);
    // The event that carries the clock past the end is still processed.
    assert_eq!(out.acked_packets, 50);
    assert!(!out.ran_dry);
}

#[test]
fn lossless_channel_never_retransmits() {
    let out = simulate(1, 0.0, TENTH_OF_A_SECOND, 1);
    let c = out.counter;
    assert_eq!(c.raw_transmitted, c.raw_delivered);
    // Each data packet entered the link once: those acknowledged, and at most
    // one still in flight.
    let sent = c.good_transmitted / 1460;
    assert!(sent == out.acked_packets || sent == out.acked_packets + 1);
}

#[test]
fn window_of_four_is_four_times_as_fast() {
    let one = simulate(1, 0.0, TENTH_OF_A_SECOND, 1);
    let four = simulate(4, 0.0, TENTH_OF_A_SECOND / 4, 1);
    // Twelve full round trips of four packets each.
    assert_eq!(four.acked_packets, 48);
    assert!(four.acked_packets + 4 >= one.acked_packets && four.acked_packets <= one.acked_packets + 4);
    let four_full = simulate(4, 0.0, TENTH_OF_A_SECOND, 1);
    // 49 full round trips, and the first acknowledgment of the next one,
    // which carries the clock past the end.
    assert_eq!(four_full.acked_packets, 49 * 4 + 1);
}

#[test]
fn total_loss_delivers_nothing() {
    let out = simulate(3, 1.0, TENTH_OF_A_SECOND, 5);
    assert_eq!(out.acked_packets, 0);
    assert_eq!(out.counter.raw_delivered, 0);
    assert_eq!(out.counter.good_delivered, 0);
    assert!(out.counter.raw_transmitted > 0);
}

#[test]
fn same_seed_same_run() {
    let a = simulate(4, 1e-5, TENTH_OF_A_SECOND, 42);
    let b = simulate(4, 1e-5, TENTH_OF_A_SECOND, 42);
    assert_eq!(a.counter, b.counter);
    assert_eq!(a.acked_packets, b.acked_packets);
    // Corruption happened, and was recovered from.
    assert!(a.counter.raw_delivered < a.counter.raw_transmitted);
    assert!(a.acked_packets > 0);
}
