use voice_keyboard::error::AudioError;
use voice_keyboard::format::{PcmEncoding, SampleFormat, StreamConfig, WavSpec};
use voice_keyboard::recorder::{add_frames, finish_stop, SimpleRecorder};

fn stereo_48k() -> StreamConfig {
    StreamConfig { sample_rate: 48000, channels: 2, sample_format: SampleFormat::I16 }
}

fn mono_header(rate: u32) -> WavSpec {
    WavSpec { channels: 1, sample_rate: rate, bits_per_sample: 16, sample_format: PcmEncoding::Int }
}

#[test]
fn new_recorder_is_idle() {
    let recorder = SimpleRecorder::new();
    assert!(!recorder.is_recording());
    assert!(!recorder.is_accepting());
    assert_eq!(recorder.sink(), None);
}

#[test]
fn stop_before_start_is_not_recording() {
    let mut recorder = SimpleRecorder::new();
    assert_eq!(recorder.stop_recording().err(), Some(AudioError::NotRecording));
    assert_eq!(recorder.stop_recording().err(), Some(AudioError::NotRecording));
    assert!(!recorder.is_recording());
}

#[test]
fn start_while_recording_is_already_recording() {
    let mut recorder = SimpleRecorder::new();
    assert_eq!(recorder.start_recording(&stereo_48k(), "a.wav".to_string()), Ok(mono_header(48000)));
    let other = StreamConfig { sample_rate: 16000, channels: 1, sample_format: SampleFormat::I8 };
    assert_eq!(
        recorder.start_recording(&other, "b.wav".to_string()),
        Err(AudioError::AlreadyRecording)
    );
    assert!(recorder.is_recording());
    let finished = recorder.stop_recording().unwrap();
    assert_eq!(finished.path, "a.wav");
    assert_eq!(finished.spec, mono_header(48000));
}

#[test]
fn already_recording_comes_before_the_configuration_check() {
    let mut recorder = SimpleRecorder::new();
    recorder.start_recording(&stereo_48k(), "a.wav".to_string()).unwrap();
    let bad = StreamConfig { sample_rate: 1, channels: 0, sample_format: SampleFormat::Other };
    assert_eq!(
        recorder.start_recording(&bad, "b.wav".to_string()),
        Err(AudioError::AlreadyRecording)
    );
}

#[test]
fn start_refuses_an_unsupported_configuration_and_stays_idle() {
    let mut recorder = SimpleRecorder::new();
    for config in [
        StreamConfig { sample_rate: 7999, channels: 2, sample_format: SampleFormat::I16 },
        StreamConfig { sample_rate: 192001, channels: 2, sample_format: SampleFormat::I16 },
        StreamConfig { sample_rate: 48000, channels: 2, sample_format: SampleFormat::Other },
        StreamConfig { sample_rate: 48000, channels: 0, sample_format: SampleFormat::I16 },
    ] {
        assert_eq!(
            recorder.start_recording(&config, "a.wav".to_string()),
            Err(AudioError::UnsupportedConfiguration)
        );
        assert!(!recorder.is_recording());
        assert_eq!(recorder.stop_recording().err(), Some(AudioError::NotRecording));
    }
}

#[test]
fn cycle_reports_mono_16_bit_at_the_negotiated_rate() {
    for rate in [8000u32, 16000, 44100, 48000, 192000] {
        for format in [SampleFormat::I8, SampleFormat::I16, SampleFormat::I32, SampleFormat::F32] {
            for channels in [1u16, 2, 6] {
                let mut recorder = SimpleRecorder::new();
                let config = StreamConfig { sample_rate: rate, channels, sample_format: format };
                let spec = recorder.start_recording(&config, "take.wav".to_string()).unwrap();
                assert_eq!(spec, mono_header(rate));
                assert_eq!(recorder.sink().unwrap().channels, channels);
                let finished = recorder.stop_recording().unwrap();
                assert_eq!(finished.spec.channels, 1);
                assert_eq!(finished.spec.bits_per_sample, 16);
                assert_eq!(finished.spec.sample_format, PcmEncoding::Int);
                assert_eq!(finished.spec.sample_rate, rate);
                assert_eq!(finished.path, "take.wav");
                assert!(!recorder.is_recording());
            }
        }
    }
}

#[test]
fn recorder_runs_many_cycles() {
    let mut recorder = SimpleRecorder::new();
    for round in 0..3 {
        let path = format!("take{}.wav", round);
        recorder.start_recording(&stereo_48k(), path.clone()).unwrap();
        assert!(recorder.is_recording());
        let finished = recorder.stop_recording().unwrap();
        assert_eq!(finished.path, path);
        assert_eq!(finished.frames_written, 0);
        assert!(!finished.halted);
        assert_eq!(recorder.stop_recording().err(), Some(AudioError::NotRecording));
    }
}

#[test]
fn idle_recorder_accepts_no_block() {
    let recorder = SimpleRecorder::new();
    assert!(recorder.capture_block(&[1, 2, 3, 4]).is_none());
}

#[test]
fn captured_block_is_downmixed_and_has_its_peak() {
    let mut recorder = SimpleRecorder::new();
    recorder.start_recording(&stereo_48k(), "a.wav".to_string()).unwrap();
    let block = recorder.capture_block(&[100, 200, -300, -500, 7, 8]).unwrap();
    assert_eq!(block.samples, vec![150, -400, 8]);
    assert_eq!(block.peak, Some(-400));
    let empty = recorder.capture_block(&[]).unwrap();
    assert_eq!(empty.samples, Vec::<i16>::new());
    assert_eq!(empty.peak, None);
}

#[test]
fn captured_frames_are_rounded_means() {
    let mut recorder = SimpleRecorder::new();
    let config = StreamConfig { sample_rate: 48000, channels: 3, sample_format: SampleFormat::I16 };
    recorder.start_recording(&config, "a.wav".to_string()).unwrap();
    assert_eq!(recorder.capture_block(&[1, 1, 0]).unwrap().samples, vec![1]);
    assert_eq!(recorder.capture_block(&[-1, -1, 0]).unwrap().samples, vec![-1]);
    assert_eq!(recorder.capture_block(&[1, 0, 0, -1, 0, 0]).unwrap().samples, vec![0, 0]);
}

#[test]
fn captured_mono_block_is_unchanged() {
    let mut recorder = SimpleRecorder::new();
    let config = StreamConfig { sample_rate: 16000, channels: 1, sample_format: SampleFormat::F32 };
    recorder.start_recording(&config, "a.wav".to_string()).unwrap();
    let block = recorder.capture_block(&[5, -9, 9, 2]).unwrap();
    assert_eq!(block.samples, vec![5, -9, 9, 2]);
    assert_eq!(block.peak, Some(-9));
}

#[test]
fn writes_are_counted() {
    let mut recorder = SimpleRecorder::new();
    recorder.start_recording(&stereo_48k(), "a.wav".to_string()).unwrap();
    recorder.note_write(480, 480);
    recorder.note_write(480, 480);
    let sink = recorder.sink().unwrap();
    assert_eq!(sink.frames_written, 960);
    assert!(!sink.halted);
    assert!(recorder.is_accepting());
    let finished = recorder.stop_recording().unwrap();
    assert_eq!(finished.frames_written, 960);
    assert!(!finished.halted);
}

#[test]
fn short_write_halts_capture_until_stop() {
    let mut recorder = SimpleRecorder::new();
    recorder.start_recording(&stereo_48k(), "a.wav".to_string()).unwrap();
    recorder.note_write(480, 480);
    recorder.note_write(480, 100);
    assert!(recorder.is_recording());
    assert!(!recorder.is_accepting());
    assert!(recorder.capture_block(&[1, 2, 3, 4]).is_none());
    recorder.note_write(480, 480);
    assert_eq!(recorder.sink().unwrap().frames_written, 580);
    let finished = recorder.stop_recording().unwrap();
    assert_eq!(finished.frames_written, 580);
    assert!(finished.halted);
    assert_eq!(finished.spec, mono_header(48000));
    recorder.start_recording(&stereo_48k(), "b.wav".to_string()).unwrap();
    assert!(recorder.is_accepting());
}

#[test]
fn write_reports_do_nothing_while_idle() {
    let mut recorder = SimpleRecorder::new();
    recorder.note_write(10, 0);
    assert!(!recorder.is_recording());
    assert_eq!(recorder.sink(), None);
}

#[test]
fn frame_count_saturates() {
    assert_eq!(add_frames(0, 0), 0);
    assert_eq!(add_frames(5, 7), 12);
    assert_eq!(add_frames(u64::MAX, 1), u64::MAX);
    assert_eq!(add_frames(u64::MAX - 1, 1), u64::MAX);
    assert_eq!(add_frames(u64::MAX - 1, 2), u64::MAX);
}

#[test]
fn stop_answers_with_the_path_or_finalize_failed() {
    let mut recorder = SimpleRecorder::new();
    recorder.start_recording(&stereo_48k(), "a.wav".to_string()).unwrap();
    let finished = recorder.stop_recording().unwrap();
    assert_eq!(finish_stop(finished, true), Ok("a.wav".to_string()));
    recorder.start_recording(&stereo_48k(), "b.wav".to_string()).unwrap();
    let finished = recorder.stop_recording().unwrap();
    assert_eq!(finish_stop(finished, false), Err(AudioError::FinalizeFailed));
}
