use audio_viz::mic::MicCapture;
use audio_viz::queue::new_sample_queue;
use audio_viz::queue::pop_sample;
use audio_viz::queue::push_sample;
use audio_viz::queue::drain_samples;
use audio_viz::sliding::SlidingWindow;
use audio_viz::stream::StreamTee;
use audio_viz::stream::UrlStream;
use audio_viz::stream::OUT_SAMPLE_RATE;

#[test]
fn fresh_adapter_reads_pure_silence() {
    let (_prod, cons) = new_sample_queue(16);
    let mut mic = MicCapture::new(cons, 48_000);
    let mut out: Vec<i32> = Vec::new();
    mic.read_window(&mut out, 2048);
    assert_eq!(out.len(), 2048);
    assert!(out.iter().all(|&s| s == 0));
    assert_eq!(mic.sample_rate, 48_000);
}

#[test]
fn sliding_window_evicts_oldest() {
    let mut w = SlidingWindow::new();
    for s in [1, 2, 3, 4, 5] {
        w.push(s, 3);
    }
    let mut out: Vec<i32> = Vec::new();
    w.copy_out(&mut out, 3);
    assert_eq!(out, vec![3, 4, 5]);
}

#[test]
fn sliding_window_pads_left_with_silence() {
    let mut w = SlidingWindow::new();
    w.push(7, 4);
    w.push(9, 4);
    let mut out: Vec<i32> = Vec::new();
    w.copy_out(&mut out, 4);
    assert_eq!(out, vec![0, 0, 7, 9]);
}

#[test]
fn queue_is_fifo_and_bounded() {
    let (mut prod, mut cons) = new_sample_queue(2);
    assert!(push_sample(&mut prod, 10));
    assert!(push_sample(&mut prod, 20));
    // The queue is bounded: a full queue drops rather than blocks.
    assert!(!push_sample(&mut prod, 30));
    assert_eq!(pop_sample(&mut cons), Some(10));
    assert_eq!(pop_sample(&mut cons), Some(20));
    assert_eq!(pop_sample(&mut cons), None);
}

#[test]
fn drain_empties_queue_in_order() {
    let (mut prod, mut cons) = new_sample_queue(8);
    for s in [4, 5, 6] {
        assert!(push_sample(&mut prod, s));
    }
    let drained = drain_samples(&mut cons);
    assert_eq!(drained, vec![4, 5, 6]);
    assert_eq!(drain_samples(&mut cons), Vec::<i32>::new());
}

#[test]
fn mic_window_tracks_latest_samples() {
    let (mut prod, cons) = new_sample_queue(64);
    let mut mic = MicCapture::new(cons, 44_100);
    let mut out: Vec<i32> = Vec::new();
    for s in 1..=5 {
        assert!(push_sample(&mut prod, s));
    }
    mic.read_window(&mut out, 4);
    assert_eq!(out, vec![2, 3, 4, 5]);
    // New samples displace the oldest across reads; nothing is replayed.
    for s in 6..=7 {
        assert!(push_sample(&mut prod, s));
    }
    mic.read_window(&mut out, 4);
    assert_eq!(out, vec![4, 5, 6, 7]);
}

#[test]
fn stream_tee_forwards_exactly_what_plays() {
    // A fake output sink: what next_sample returns is what would be played.
    let (mut audio_prod, audio_cons) = new_sample_queue(16);
    let (viz_prod, mut viz_cons) = new_sample_queue(16);
    for s in [11, 22, 33] {
        assert!(push_sample(&mut audio_prod, s));
    }
    let mut tee = StreamTee::new(audio_cons, viz_prod);
    let mut played: Vec<i32> = Vec::new();
    for _ in 0..4 {
        played.push(tee.next_sample());
    }
    // An exhausted decoder yields silence, which is also what the sink hears.
    assert_eq!(played, vec![11, 22, 33, 0]);
    let forwarded = drain_samples(&mut viz_cons);
    assert_eq!(forwarded, played);
}

#[test]
fn url_stream_reads_played_samples() {
    let (mut audio_prod, audio_cons) = new_sample_queue(16);
    let (viz_prod, viz_cons) = new_sample_queue(16);
    for s in [5, 6] {
        assert!(push_sample(&mut audio_prod, s));
    }
    let mut tee = StreamTee::new(audio_cons, viz_prod);
    let mut stream = UrlStream::new(viz_cons);
    assert_eq!(stream.sample_rate, OUT_SAMPLE_RATE);
    let a = tee.next_sample();
    let b = tee.next_sample();
    assert_eq!((a, b), (5, 6));
    let mut out: Vec<i32> = Vec::new();
    stream.read_window(&mut out, 4);
    assert_eq!(out, vec![0, 0, 5, 6]);
}
