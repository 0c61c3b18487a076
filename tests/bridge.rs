use intmap::IntMap;
use web_audio_core::buffer::{AudioBuffer, ChannelData, SampleRate};
use web_audio_core::destination::{MediaStreamAudioDestinationNode, StreamError};
use web_audio_core::config::{ChannelConfigOptions, ChannelCountMode, ChannelInterpretation};
use web_audio_core::params::{AudioParamId, AudioParamValues, Node, BUFFER_SIZE};

fn block(samples: &[u32]) -> AudioBuffer {
    AudioBuffer::from_channels(vec![ChannelData::new(samples.to_vec())], SampleRate(1))
}

fn options() -> ChannelConfigOptions {
    ChannelConfigOptions {
        count: 2,
        mode: ChannelCountMode::Explicit,
        interpretation: ChannelInterpretation::Speakers,
    }
}

#[test]
fn destination_keeps_its_channel_config() {
    let (node, _renderer) = MediaStreamAudioDestinationNode::new(ChannelConfigOptions {
        count: 1,
        mode: ChannelCountMode::ClampedMax,
        interpretation: ChannelInterpretation::Discrete,
    });
    let config = node.channel_config();
    assert_eq!(config.get_count(), 1);
    assert_eq!(config.get_mode(), ChannelCountMode::ClampedMax);
    assert_eq!(config.get_interpretation(), ChannelInterpretation::Discrete);
}

#[test]
fn destination_delivers_a_rendered_block() {
    let (node, mut renderer) = MediaStreamAudioDestinationNode::new(options());
    assert_eq!(node.number_of_inputs(), 1);
    assert_eq!(node.number_of_outputs(), 0);
    let mut stream = node.stream();
    let keep = renderer.process(&[block(&[1, 2, 3])], SampleRate(48_000));
    assert!(!keep);
    let got = stream.next().unwrap().unwrap();
    assert_eq!(got.channel_data(0).as_slice(), &[1, 2, 3]);
    assert_eq!(got.sample_rate(), SampleRate(48_000));
}

#[test]
fn destination_prefers_the_newest_block() {
    let (node, mut renderer) = MediaStreamAudioDestinationNode::new(options());
    let mut stream = node.stream();
    renderer.process(&[block(&[1, 1])], SampleRate(100));
    renderer.process(&[block(&[2, 2])], SampleRate(100));
    renderer.process(&[block(&[3, 3])], SampleRate(100));
    let got = stream.next().unwrap().unwrap();
    assert_eq!(got.channel_data(0).as_slice(), &[3, 3]);
}

#[test]
fn destination_stream_reports_disconnect() {
    let (node, mut renderer) = MediaStreamAudioDestinationNode::new(options());
    let mut stream = node.stream();
    renderer.process(&[block(&[9])], SampleRate(100));
    drop(renderer);
    assert!(stream.next().unwrap().is_ok());
    match stream.next().unwrap() {
        Err(e) => {
            assert_eq!(e, StreamError::Disconnected);
            assert_eq!(e.message(), "receiving on a closed channel");
        }
        Ok(_) => panic!("expected a disconnect"),
    }
}

fn block_of(value: u32) -> AudioBuffer {
    block(&vec![value; BUFFER_SIZE])
}

#[test]
fn param_values_read_the_node_output() {
    let mut nodes: IntMap<Node> = IntMap::new();
    nodes.insert(3, Node::new(block_of(5)));
    nodes.insert(4, Node::new(block_of(1)));
    let values = AudioParamValues::from(&nodes);
    assert_eq!(values.get(&AudioParamId(4)), &vec![1u32; BUFFER_SIZE][..]);
    assert_eq!(values.get(&AudioParamId(3)), &vec![5u32; BUFFER_SIZE][..]);
    assert_eq!(values.get(&AudioParamId(4)).len(), 128);
    assert_eq!(values.get_raw(&AudioParamId(4)).length(), 128);
    assert_eq!(values.try_get(&AudioParamId(4)), Some(&vec![1u32; BUFFER_SIZE][..]));
    assert_eq!(values.try_get(&AudioParamId(7)), None);
}
