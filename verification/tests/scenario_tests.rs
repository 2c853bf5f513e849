use hound::{SampleFormat, WavReader, WavSpec, WavWriter};
use rubato::{
    Resampler, SincFixedIn, SincInterpolationParameters, SincInterpolationType, WindowFunction,
};
use std::io::Cursor;
use voice_keyboard::format::{make_output_spec, PcmEncoding, StreamConfig};
use voice_keyboard::peaks::PeakMeter;
use voice_keyboard::recorder::SimpleRecorder;
use voice_keyboard::resample::resample;

fn file_spec(spec: voice_keyboard::format::WavSpec) -> WavSpec {
    WavSpec {
        channels: spec.channels,
        sample_rate: spec.sample_rate,
        bits_per_sample: spec.bits_per_sample,
        sample_format: match spec.sample_format {
            PcmEncoding::Int => SampleFormat::Int,
            PcmEncoding::Float => SampleFormat::Float,
        },
    }
}

fn record(config: StreamConfig, blocks: &[Vec<i16>]) -> (Vec<u8>, Vec<i16>, u64) {
    let mut recorder = SimpleRecorder::new();
    let spec = recorder.start_recording(&config, "memory.wav".to_string()).unwrap();
    let mut file = Cursor::new(Vec::new());
    let mut writer = WavWriter::new(&mut file, file_spec(spec)).unwrap();
    let mut meter = PeakMeter::new();
    let mut forwarded = Vec::new();
    let mut now: u64 = 0;
    for block in blocks {
        let captured = recorder.capture_block(block).unwrap();
        if let Some(peak) = captured.peak {
            if let Some(p) = meter.offer(now, peak) {
                forwarded.push(p);
            }
        }
        let mut written = 0;
        for &sample in &captured.samples {
            if writer.write_sample(sample).is_err() {
                break;
            }
            written += 1;
        }
        recorder.note_write(captured.samples.len(), written);
        now += (block.len() as u64 / config.channels as u64) * 1_000_000_000 / config.sample_rate as u64;
    }
    let finished = recorder.stop_recording().unwrap();
    writer.finalize().unwrap();
    assert!(!recorder.is_recording());
    assert!(!finished.halted);
    (file.into_inner(), forwarded, finished.frames_written)
}

#[test]
fn recorded_file_header_is_mono_16_bit_at_the_device_rate() {
    for (rate, channels) in [(8000u32, 1u16), (44100, 2), (48000, 2), (192000, 6)] {
        let config = StreamConfig {
            sample_rate: rate,
            channels,
            sample_format: voice_keyboard::format::SampleFormat::I16,
        };
        let block: Vec<i16> = (0..channels as usize * 100).map(|i| (i % 50) as i16).collect();
        let (bytes, _, frames) = record(config, &[block.clone(), block]);
        let reader = WavReader::new(Cursor::new(bytes)).unwrap();
        let spec = reader.spec();
        assert_eq!(spec.channels, 1);
        assert_eq!(spec.bits_per_sample, 16);
        assert_eq!(spec.sample_format, SampleFormat::Int);
        assert_eq!(spec.sample_rate, rate);
        assert_eq!(reader.len() as u64, 200);
        assert_eq!(frames, 200);
    }
}

#[test]
fn recorded_samples_keep_their_order() {
    let config = StreamConfig {
        sample_rate: 16000,
        channels: 2,
        sample_format: voice_keyboard::format::SampleFormat::I16,
    };
    let blocks = vec![vec![2, 4, 10, 30], vec![], vec![-8, -2, 7, 7, 1, 0]];
    let (bytes, _, frames) = record(config, &blocks);
    let mut reader = WavReader::new(Cursor::new(bytes)).unwrap();
    let samples: Vec<i16> = reader.samples::<i16>().map(|s| s.unwrap()).collect();
    assert_eq!(samples, vec![3, 20, -5, 7, 1]);
    assert_eq!(frames, 5);
}

#[test]
fn two_seconds_at_48000_become_32000_samples_at_16000_mono() {
    let config = StreamConfig {
        sample_rate: 48000,
        channels: 2,
        sample_format: voice_keyboard::format::SampleFormat::I16,
    };
    let mut blocks: Vec<Vec<i16>> = Vec::new();
    let mut frame: u32 = 0;
    for _ in 0..200 {
        let mut block = Vec::with_capacity(960);
        for _ in 0..480 {
            let phase = 2.0 * std::f32::consts::PI * 440.0 * frame as f32 / 48000.0;
            let sample = (phase.sin() * 12000.0) as i16;
            block.push(sample);
            block.push(sample / 2);
            frame += 1;
        }
        blocks.push(block);
    }
    let (recorded, forwarded, frames) = record(config, &blocks);
    assert_eq!(frames, 96000);
    assert_eq!(forwarded.len(), 200);

    let mut reader = WavReader::new(Cursor::new(recorded)).unwrap();
    let input_spec = reader.spec();
    assert_eq!(input_spec.sample_rate, 48000);
    let pcm: Vec<i16> = reader.samples::<i16>().map(|s| s.unwrap()).collect();
    assert_eq!(pcm.len(), 96000);
    let signal: Vec<f32> = pcm.iter().map(|&s| s as f32 / 32768.0).collect();

    let sinc = |channel: &Vec<f32>| {
        let params = SincInterpolationParameters {
            sinc_len: 256,
            f_cutoff: 0.95,
            interpolation: SincInterpolationType::Linear,
            oversampling_factor: 256,
            window: WindowFunction::BlackmanHarris2,
        };
        let mut resampler =
            SincFixedIn::<f32>::new(16000.0 / 48000.0, 1.2, params, channel.len(), 1).ok()?;
        let delay = resampler.output_delay();
        let mut raw = resampler.process(&[channel.clone()], None).ok()?.remove(0);
        let tail = resampler.process_partial(None::<&[Vec<f32>]>, None).ok()?.remove(0);
        raw.extend(tail);
        Some((raw, delay))
    };
    let mean = |frame: &Vec<f32>| frame.iter().sum::<f32>() / frame.len() as f32;
    let converted =
        resample(&signal, input_spec.sample_rate, input_spec.channels, 16000, 1, sinc, mean).unwrap();

    let mut file = Cursor::new(Vec::new());
    let mut writer = WavWriter::new(&mut file, file_spec(make_output_spec(16000, 1))).unwrap();
    for &sample in &converted {
        writer.write_sample((sample.clamp(-1.0, 1.0) * 32767.0) as i16).unwrap();
    }
    writer.finalize().unwrap();

    let reader = WavReader::new(Cursor::new(file.into_inner())).unwrap();
    let spec = reader.spec();
    assert_eq!(spec.sample_rate, 16000);
    assert_eq!(spec.channels, 1);
    assert_eq!(spec.bits_per_sample, 16);
    assert_eq!(spec.sample_format, SampleFormat::Int);
    assert_eq!(reader.len(), 32000);
}
