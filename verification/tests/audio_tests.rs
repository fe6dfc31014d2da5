use discord_voice::audio_io::{AudioInput, AudioOutput, INPUT_BUFFER_SIZE, OUTPUT_BUFFER_SIZE};

fn samples(from: i16, count: usize) -> Vec<i16> {
    (0..count).map(|i| from.wrapping_add(i as i16)).collect()
}

#[test]
fn empty_output_plays_silence() {
    let mut output = AudioOutput::new();
    let mut data = [7i16; 4];
    output.fill(&mut data);
    assert_eq!(data, [0; 4]);
}

#[test]
fn output_plays_in_order_then_silence() {
    let mut output = AudioOutput::new();
    output.push(&[1, -2, 3]);
    output.push(&[4]);
    let mut data = [9i16; 6];
    output.fill(&mut data);
    assert_eq!(data, [1, -2, 3, 4, 0, 0]);
    output.fill(&mut data);
    assert_eq!(data, [0; 6]);
}

#[test]
fn output_portions_do_not_matter() {
    let mut whole = AudioOutput::new();
    let mut parts = AudioOutput::new();
    whole.push(&samples(1, 10));
    parts.push(&samples(1, 10));
    let mut all = [0i16; 12];
    whole.fill(&mut all);
    let mut first = [0i16; 5];
    let mut second = [0i16; 7];
    parts.fill(&mut first);
    parts.fill(&mut second);
    assert_eq!(all[..5], first);
    assert_eq!(all[5..], second);
}

#[test]
fn output_drops_what_finds_no_room() {
    let mut output = AudioOutput::new();
    output.push(&samples(0, OUTPUT_BUFFER_SIZE - 1));
    output.push(&[-5, -6, -7]);
    let mut data = vec![0i16; OUTPUT_BUFFER_SIZE];
    output.fill(&mut data);
    assert_eq!(data[..OUTPUT_BUFFER_SIZE - 1], samples(0, OUTPUT_BUFFER_SIZE - 1)[..]);
    assert_eq!(data[OUTPUT_BUFFER_SIZE - 1], -5);
    let mut rest = [3i16; 2];
    output.fill(&mut rest);
    assert_eq!(rest, [0, 0]);
}

#[test]
fn output_wraps_around() {
    let mut output = AudioOutput::new();
    let mut data = vec![0i16; 20000];
    for round in 0..5 {
        let sent = samples(round, 20000);
        output.push(&sent);
        output.fill(&mut data);
        assert_eq!(data, sent);
    }
}

#[test]
fn input_leaves_the_rest_as_it_was() {
    let mut input = AudioInput::new();
    input.record(&[1, 2, 3]);
    let mut data = [9i16; 5];
    input.pop(&mut data);
    assert_eq!(data, [1, 2, 3, 9, 9]);
    input.pop(&mut data);
    assert_eq!(data, [1, 2, 3, 9, 9]);
}

#[test]
fn input_keeps_what_was_not_asked_for() {
    let mut input = AudioInput::new();
    input.record(&[1, 2, 3, 4]);
    let mut data = [0i16; 3];
    input.pop(&mut data);
    assert_eq!(data, [1, 2, 3]);
    input.pop(&mut data);
    assert_eq!(data, [4, 2, 3]);
}

#[test]
fn input_drops_what_finds_no_room() {
    let mut input = AudioInput::new();
    input.record(&samples(0, INPUT_BUFFER_SIZE + 10));
    let mut data = vec![-1i16; INPUT_BUFFER_SIZE + 1];
    input.pop(&mut data);
    assert_eq!(data[..INPUT_BUFFER_SIZE], samples(0, INPUT_BUFFER_SIZE)[..]);
    assert_eq!(data[INPUT_BUFFER_SIZE], -1);
}

#[test]
fn devices_are_opened_at_48_kilohertz() {
    let output = AudioOutput::settings();
    assert_eq!((output.channels, output.sample_rate, output.buffer_size), (2, 48000, 1024));
    let input = AudioInput::settings();
    assert_eq!((input.channels, input.sample_rate, input.buffer_size), (1, 48000, 512));
}
