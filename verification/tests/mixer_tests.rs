use synth_one::dsp::mixer::{Amp, Mixer, SimpleAmp, SimpleMixer};
use synth_one::fixed::ONE;

#[test]
fn mix_is_a_gain_weighted_sum() {
    let mut mixer = SimpleMixer::new();
    mixer.add_input(vec![100, -200], ONE);
    mixer.add_input(vec![300, 50], ONE);
    assert_eq!(mixer.process(), vec![400, -150]);

    let mut mixer = SimpleMixer::new();
    mixer.add_input(vec![100, -200], ONE);
    mixer.add_input(vec![300, 50], ONE / 2);
    assert_eq!(mixer.process(), vec![250, -175]);
}

#[test]
fn mix_truncates_toward_zero() {
    let mut mixer = SimpleMixer::new();
    mixer.add_input(vec![999, -999], ONE / 2);
    assert_eq!(mixer.process(), vec![499, -499]);
}

#[test]
fn mix_in_any_order_gives_the_same_output() {
    let a = (vec![100, -200, 300], ONE);
    let b = (vec![7, 9, -11], ONE / 2);
    let c = (vec![-1000, 500, 250], ONE / 4);

    let orders: [[&(Vec<i64>, i64); 3]; 3] = [[&a, &b, &c], [&c, &a, &b], [&b, &c, &a]];
    let mut outputs = Vec::new();
    for order in orders.iter() {
        let mut mixer = SimpleMixer::new();
        for (channel, gain) in order.iter() {
            mixer.add_input(channel.clone(), *gain);
        }
        outputs.push(mixer.process());
    }
    assert_eq!(outputs[0], outputs[1]);
    assert_eq!(outputs[1], outputs[2]);
}

#[test]
fn amp_scales_every_sample_in_place() {
    let amp = SimpleAmp::new(ONE / 2);
    let mut buffer = vec![1000, -999, 0];
    amp.process(&mut buffer);
    assert_eq!(buffer, vec![500, -499, 0]);
}

#[test]
fn amp_at_full_volume_changes_nothing() {
    let amp = SimpleAmp::new(ONE);
    let mut buffer = vec![1234, -4321, 65536, -65536];
    amp.process(&mut buffer);
    assert_eq!(buffer, vec![1234, -4321, 65536, -65536]);
}

#[test]
fn amp_at_zero_volume_silences() {
    let amp = SimpleAmp::new(0);
    let mut buffer = vec![1234, -4321];
    amp.process(&mut buffer);
    assert_eq!(buffer, vec![0, 0]);
}
