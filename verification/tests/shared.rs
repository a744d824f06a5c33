use flight_core::flight::{drain_commands, handle_api, handle_cmd_val, log_cycle, Command, Data};
use rand::Rng;
use std::sync::{Arc, Mutex};

/// The control surface's side: queue one command and read the altitude channel.
fn control_turn(shared: &Arc<Mutex<Data>>, n: u32, seen: &mut usize) {
    let mut data = shared.lock().unwrap();
    handle_cmd_val(&mut data, "config_baro", n);
    let samples = handle_api(&data, "alt", 0);
    assert!(samples.len() >= *seen);
    *seen = samples.len();
    // a read sees whole cycles only: every sample carries the value logged with its time
    for (time, value) in samples {
        assert_eq!(value, time.wrapping_mul(3));
    }
}

/// The sensing loop's side: drain the queue, then log one cycle.
fn sensing_turn(shared: &Arc<Mutex<Data>>, cycle: u32, got: &mut Vec<Command>) {
    let mut data = shared.lock().unwrap();
    got.extend(drain_commands(&mut data));
    log_cycle(&mut data, cycle, cycle.wrapping_mul(3), 0, 0);
}

#[test]
fn no_command_is_lost_between_two_sides() {
    let mut rng = rand::thread_rng();
    for _ in 0..20 {
        let shared = Arc::new(Mutex::new(Data::new()));
        let surface = Arc::clone(&shared);
        let total: u32 = 500;

        let mut sent: u32 = 0;
        let mut seen: usize = 0;
        let mut cycle: u32 = 0;
        let mut got: Vec<Command> = vec![];
        while sent < total {
            if rng.gen_range(0u32..3u32) == 0 {
                sensing_turn(&shared, cycle, &mut got);
                cycle += 1;
            } else {
                control_turn(&surface, sent, &mut seen);
                sent += 1;
            }
        }
        sensing_turn(&shared, cycle, &mut got);

        let expected: Vec<Command> = (0..total).map(Command::ConfigBaro).collect();
        assert_eq!(got, expected);
        let data = shared.lock().unwrap();
        assert!(data.cmds.is_empty());
        assert_eq!(data.altitude.len() as u32, cycle + 1);
        assert_eq!(data.pressure.len(), data.altitude.len());
        assert_eq!(data.temperature.len(), data.altitude.len());
    }
}
