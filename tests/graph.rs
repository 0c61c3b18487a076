use web_audio_core::buffer::SampleRate;
use web_audio_core::graph::{output_buffers, prune, render_set};

#[test]
fn render_set_lists_each_feeding_unit_once() {
    // 0 is the destination; 1 and 2 feed it, 3 feeds both 1 and 2, 4 feeds nothing reachable.
    let inputs: Vec<Vec<usize>> = vec![vec![1, 2], vec![3], vec![3], vec![], vec![0]];
    let order = render_set(&inputs, 0);
    assert_eq!(order, vec![0, 1, 2, 3]);
}

#[test]
fn render_set_of_a_lone_destination() {
    let inputs: Vec<Vec<usize>> = vec![vec![], vec![0]];
    assert_eq!(render_set(&inputs, 0), vec![0]);
}

#[test]
fn render_set_survives_a_feedback_loop() {
    let inputs: Vec<Vec<usize>> = vec![vec![1], vec![2], vec![1]];
    assert_eq!(render_set(&inputs, 0), vec![0, 1, 2]);
}

#[test]
fn prune_removes_unreachable_finished_units() {
    let mut alive = vec![true, true, true, true, false];
    let rendered = vec![0, 1];
    let keep_alive = vec![false, false, true, false, true];
    prune(&mut alive, &rendered, &keep_alive);
    assert_eq!(alive, vec![true, true, true, false, false]);
}

#[test]
fn pruned_unit_that_keeps_itself_alive_persists_until_it_stops() {
    let mut alive = vec![true, true];
    let rendered = vec![0];
    prune(&mut alive, &rendered, &vec![false, true]);
    assert_eq!(alive, vec![true, true]);
    prune(&mut alive, &rendered, &vec![false, true]);
    assert_eq!(alive, vec![true, true]);
    prune(&mut alive, &rendered, &vec![false, false]);
    assert_eq!(alive, vec![true, false]);
}

#[test]
fn output_buffers_have_the_declared_channel_count() {
    let outs = output_buffers(2, 3, 128, SampleRate(44_100));
    assert_eq!(outs.len(), 2);
    for b in &outs {
        assert_eq!(b.number_of_channels(), 3);
        assert_eq!(b.length(), 128);
        assert!(b.channel_data(2).as_slice().iter().all(|s| *s == 0));
    }
}
