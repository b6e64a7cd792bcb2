use hypetrigger::pipeline::{Frame, Hypetrigger, ThresholdFilter, Trigger};
use hypetrigger::stdin::{stdin_bytes, FfmpegStdinCommand};

struct CountPixels;

impl Trigger for CountPixels {
    fn on_frame(&self, frame: Frame) -> Result<(), String> {
        if frame.image.len() as u64 == frame.width * frame.height * 3 {
            Ok(())
        } else {
            Err("bad frame".to_string())
        }
    }
}

#[test]
fn stop_command_is_the_quit_key() {
    assert_eq!(stdin_bytes(&FfmpegStdinCommand::Stop), b"q".to_vec());
}

#[test]
fn new_pipeline_is_empty() {
    let h = Hypetrigger::new();
    assert_eq!(h.ffmpeg_exe, "");
    assert_eq!(h.input, "");
    assert_eq!(h.fps, 0);
    assert!(h.triggers.is_empty());
    let d = Hypetrigger::default();
    assert_eq!(d.ffmpeg_exe, "");
    assert_eq!(d.fps, 0);
    assert!(d.triggers.is_empty());
}

#[test]
fn builder_sets_each_field() {
    let mut h = Hypetrigger::new();
    h.set_ffmpeg_exe("ffmpeg".to_string())
        .set_input("test.mp4".to_string())
        .set_fps(2)
        .add_trigger(Box::new(CountPixels));
    assert_eq!(h.ffmpeg_exe, "ffmpeg");
    assert_eq!(h.input, "test.mp4");
    assert_eq!(h.fps, 2);
    assert_eq!(h.triggers.len(), 1);
    h.set_fps(4).add_trigger(Box::new(CountPixels));
    assert_eq!(h.fps, 4);
    assert_eq!(h.input, "test.mp4");
    assert_eq!(h.triggers.len(), 2);
    let frame = Frame { width: 1, height: 2, image: vec![0; 6], frame_num: 0, timestamp: 0 };
    assert!(h.triggers[1].on_frame(frame).is_ok());
}

#[test]
fn pipeline_command_samples_the_whole_frame() {
    let mut h = Hypetrigger::new();
    h.set_ffmpeg_exe("ffmpeg".to_string()).set_input("test.mp4".to_string()).set_fps(2);
    let cmd = h.ffmpeg_command().unwrap();
    assert_eq!(cmd.program, "ffmpeg");
    let expected: Vec<String> = [
        "-hwaccel",
        "auto",
        "-i",
        "test.mp4",
        "-filter_complex",
        "[0:v]fps=2,split=1[in0];[in0]crop=round(in_w*1):round(in_h*1):round(in_w*0):round(in_h*0)[out0]",
        "-map",
        "[out0]",
        "-vsync",
        "drop",
        "-f",
        "rawvideo",
        "-pix_fmt",
        "rgb24",
        "-an",
        "-y",
        "pipe:1",
    ]
    .iter()
    .map(|a| a.to_string())
    .collect();
    assert_eq!(cmd.args, expected);
}

#[test]
fn pipeline_command_refuses_zero_fps() {
    let mut h = Hypetrigger::new();
    h.set_input("test.mp4".to_string());
    assert_eq!(h.ffmpeg_command().err(), Some("fps must be greater than zero".to_string()));
}

#[test]
fn sampled_frames_carry_number_and_time() {
    let f = Frame::sampled(2, 1, vec![1, 2, 3, 4, 5, 6], 0, 2);
    assert_eq!((f.width, f.height, f.frame_num, f.timestamp), (2, 1, 0, 0));
    assert_eq!(f.image, vec![1, 2, 3, 4, 5, 6]);
    assert_eq!(Frame::sampled(1, 1, vec![0; 3], 5, 2).timestamp, 2500);
    assert_eq!(Frame::sampled(1, 1, vec![0; 3], 1, 3).timestamp, 333);
    assert_eq!(Frame::sampled(1, 1, vec![0; 3], 7, 1000).timestamp, 7);
    assert_eq!(Frame::sampled(1, 1, vec![], u64::MAX, 1).timestamp, u64::MAX);
    assert_eq!(Frame::sampled(1, 1, vec![], u64::MAX, 1000).timestamp, u64::MAX);
}

#[test]
fn threshold_filter_holds_its_settings() {
    let f = ThresholdFilter { r: 255, g: 255, b: 255, threshold: 42 };
    assert_eq!((f.r, f.g, f.b, f.threshold), (255, 255, 255, 42));
}
