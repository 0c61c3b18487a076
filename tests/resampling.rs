use web_audio_core::buffer::{AudioBuffer, ChannelData, SampleRate};
use web_audio_core::resampler::{Pulled, Resampler, Step};

fn bits(samples: &[f32]) -> Vec<u32> {
    samples.iter().map(|s| s.to_bits()).collect()
}

fn floats(samples: &[u32]) -> Vec<f32> {
    samples.iter().map(|s| f32::from_bits(*s)).collect()
}

fn mono(samples: &[f32], rate: u32) -> AudioBuffer {
    AudioBuffer::from_channels(vec![ChannelData::new(bits(samples))], SampleRate(rate))
}

/// Drives the resampler over `input` the way a pull loop does: poll first,
/// pull only when asked.
struct Driver {
    resampler: Resampler,
    input: std::vec::IntoIter<Option<AudioBuffer>>,
}

impl Driver {
    fn new(resampler: Resampler, input: Vec<Option<AudioBuffer>>) -> Self {
        Driver { resampler, input: input.into_iter() }
    }

    /// `None` inside the input stands for a failed item.
    fn next(&mut self) -> Option<Result<AudioBuffer, ()>> {
        let mut step = self.resampler.poll();
        loop {
            match step {
                Step::Emit(b) => return Some(Ok(b)),
                Step::Done => return None,
                Step::Failed | Step::Rejected => return Some(Err(())),
                Step::NeedInput => {
                    let pulled = match self.input.next() {
                        None => Pulled::Exhausted,
                        Some(None) => Pulled::Failed,
                        Some(Some(b)) => Pulled::Data(b),
                    };
                    step = self.resampler.feed(pulled);
                }
            }
        }
    }
}

#[test]
fn test_resampler_concat() {
    let input: Vec<Option<AudioBuffer>> =
        (0..3).map(|_| Some(mono(&[1., 2., 3., 4., 5.], 44_100))).collect();
    let mut resampler = Driver::new(Resampler::new(SampleRate(44_100), 10), input);

    let next = resampler.next().unwrap().unwrap();
    assert_eq!(next.length(), 10);
    assert_eq!(
        floats(next.channel_data(0).as_slice()),
        vec![1., 2., 3., 4., 5., 1., 2., 3., 4., 5.]
    );

    let next = resampler.next().unwrap().unwrap();
    assert_eq!(next.length(), 10);
    assert_eq!(
        floats(next.channel_data(0).as_slice()),
        vec![1., 2., 3., 4., 5., 0., 0., 0., 0., 0.]
    );

    assert!(resampler.next().is_none());
}

#[test]
fn test_resampler_split() {
    let input = vec![Some(mono(&[1., 2., 3., 4., 5., 6., 7., 8., 9., 10.], 44_100))];
    let mut resampler = Driver::new(Resampler::new(SampleRate(44_100), 5), input);

    let next = resampler.next().unwrap().unwrap();
    assert_eq!(next.length(), 5);
    assert_eq!(floats(next.channel_data(0).as_slice()), vec![1., 2., 3., 4., 5.]);

    let next = resampler.next().unwrap().unwrap();
    assert_eq!(next.length(), 5);
    assert_eq!(floats(next.channel_data(0).as_slice()), vec![6., 7., 8., 9., 10.]);

    assert!(resampler.next().is_none());
}

#[test]
fn resampler_empty_input_ends_at_once() {
    let mut resampler = Driver::new(Resampler::new(SampleRate(48_000), 4), vec![]);
    assert!(resampler.next().is_none());
    assert!(resampler.next().is_none());
}

#[test]
fn resampler_keeps_every_sample_in_order() {
    let lengths = [3usize, 4, 2, 6];
    let mut all: Vec<f32> = Vec::new();
    let mut input = Vec::new();
    let mut k = 1.0f32;
    for len in lengths {
        let mut samples = Vec::new();
        for _ in 0..len {
            samples.push(k);
            all.push(k);
            k += 1.0;
        }
        input.push(Some(mono(&samples, 8_000)));
    }
    let mut resampler = Driver::new(Resampler::new(SampleRate(8_000), 4), input);
    let mut out: Vec<f32> = Vec::new();
    let mut blocks = 0;
    while let Some(item) = resampler.next() {
        let b = item.unwrap();
        assert_eq!(b.length(), 4);
        assert_eq!(b.sample_rate(), SampleRate(8_000));
        out.extend(floats(b.channel_data(0).as_slice()));
        blocks += 1;
    }
    assert_eq!(blocks, 4);
    assert_eq!(&out[..15], &all[..]);
    assert_eq!(out[15], 0.0);
}

#[test]
fn resampler_exact_fit_has_no_padding() {
    let input = vec![Some(mono(&[1., 2., 3.], 100)), Some(mono(&[4., 5., 6.], 100))];
    let mut resampler = Driver::new(Resampler::new(SampleRate(100), 3), input);
    assert_eq!(floats(resampler.next().unwrap().unwrap().channel_data(0).as_slice()), vec![1., 2., 3.]);
    assert_eq!(floats(resampler.next().unwrap().unwrap().channel_data(0).as_slice()), vec![4., 5., 6.]);
    assert!(resampler.next().is_none());
}

#[test]
fn resampler_input_error_is_terminal() {
    let input = vec![Some(mono(&[1., 2.], 100)), None, Some(mono(&[3., 4., 5., 6.], 100))];
    let mut resampler = Driver::new(Resampler::new(SampleRate(100), 4), input);
    assert!(resampler.next().unwrap().is_err());
    assert!(resampler.next().is_none());
}

#[test]
fn resampler_rejects_other_rate() {
    let input = vec![Some(mono(&[1., 2.], 22_050))];
    let mut resampler = Driver::new(Resampler::new(SampleRate(44_100), 2), input);
    assert!(resampler.next().unwrap().is_err());
    assert!(resampler.next().is_none());
}

#[test]
fn resampler_rejects_other_channel_count() {
    let stereo = AudioBuffer::from_channels(
        vec![ChannelData::new(bits(&[1., 2.])), ChannelData::new(bits(&[3., 4.]))],
        SampleRate(100),
    );
    let input = vec![Some(mono(&[1.], 100)), Some(stereo)];
    let mut resampler = Driver::new(Resampler::new(SampleRate(100), 4), input);
    assert!(resampler.next().unwrap().is_err());
}

#[test]
fn resampler_joins_each_channel() {
    let a = AudioBuffer::from_channels(
        vec![ChannelData::new(bits(&[1., 2.])), ChannelData::new(bits(&[-1., -2.]))],
        SampleRate(100),
    );
    let b = AudioBuffer::from_channels(
        vec![ChannelData::new(bits(&[3., 4., 5.])), ChannelData::new(bits(&[-3., -4., -5.]))],
        SampleRate(100),
    );
    let mut resampler = Driver::new(Resampler::new(SampleRate(100), 4), vec![Some(a), Some(b)]);
    let first = resampler.next().unwrap().unwrap();
    assert_eq!(first.number_of_channels(), 2);
    assert_eq!(floats(first.channel_data(0).as_slice()), vec![1., 2., 3., 4.]);
    assert_eq!(floats(first.channel_data(1).as_slice()), vec![-1., -2., -3., -4.]);
    let last = resampler.next().unwrap().unwrap();
    assert_eq!(floats(last.channel_data(0).as_slice()), vec![5., 0., 0., 0.]);
    assert_eq!(floats(last.channel_data(1).as_slice()), vec![-5., 0., 0., 0.]);
    assert!(resampler.next().is_none());
}

#[test]
fn resampler_poll_before_input_asks_for_input() {
    let mut resampler = Resampler::new(SampleRate(100), 2);
    assert!(matches!(resampler.poll(), Step::NeedInput));
    assert!(matches!(resampler.feed(Pulled::Data(mono(&[1.], 100))), Step::NeedInput));
    match resampler.feed(Pulled::Data(mono(&[2., 3., 4., 5., 6.], 100))) {
        Step::Emit(b) => assert_eq!(floats(b.channel_data(0).as_slice()), vec![1., 2.]),
        _ => panic!("expected a block"),
    }
    match resampler.poll() {
        Step::Emit(b) => assert_eq!(floats(b.channel_data(0).as_slice()), vec![3., 4.]),
        _ => panic!("expected a block"),
    }
    match resampler.poll() {
        Step::Emit(b) => assert_eq!(floats(b.channel_data(0).as_slice()), vec![5., 6.]),
        _ => panic!("expected a block"),
    }
    assert!(matches!(resampler.poll(), Step::NeedInput));
}

#[test]
fn resampler_zero_length_input_then_end_gives_nothing() {
    let input = vec![Some(mono(&[], 100))];
    let mut resampler = Driver::new(Resampler::new(SampleRate(100), 4), input);
    assert!(resampler.next().is_none());
}
