use mandelbrot_rs::coordinator::{MandelUpdate, RenderedImage, RequestError, SubmitAction, UpdateInfo};

fn request(n: i64) -> UpdateInfo<i64> {
    UpdateInfo::new(50, (1, 1), n).unwrap()
}

fn image(b: u8) -> RenderedImage {
    RenderedImage::new(vec![b, b, b], 1, 1).unwrap()
}

#[test]
fn requests_are_validated() {
    assert!(matches!(UpdateInfo::new(0, (2, 2), 0i64), Err(RequestError::ZeroBudget)));
    assert!(matches!(UpdateInfo::new(5, (0, 2), 0i64), Err(RequestError::EmptyRaster)));
    assert!(matches!(UpdateInfo::new(5, (2, 0), 0i64), Err(RequestError::EmptyRaster)));
    let u = UpdateInfo::new(5, (2, 3), 7i64).unwrap();
    assert_eq!(u.iter(), 5);
    assert_eq!(u.dim(), (2, 3));
    assert_eq!(*u.window(), 7);
}

#[test]
fn image_needs_three_bytes_per_pixel() {
    assert!(RenderedImage::new(vec![0; 5], 1, 2).is_none());
    let img = RenderedImage::new(vec![0; 6], 1, 2).unwrap();
    assert_eq!(img.dim(), (1, 2));
    assert_eq!(img.pixels().len(), 6);
}

#[test]
fn rapid_requests_coalesce_to_the_newest() {
    let mut c: MandelUpdate<i64> = MandelUpdate::new(image(0));
    assert!(!c.is_running());
    assert_eq!(c.update(request(1)), SubmitAction::SpawnWorker);
    assert!(c.is_running());
    let (t1, r1) = c.take_latest().unwrap();
    assert_eq!((t1, *r1.window()), (0, 1));
    // two more arrive while the first renders
    assert_eq!(c.update(request(2)), SubmitAction::Queued);
    assert_eq!(c.update(request(3)), SubmitAction::Queued);
    assert!(c.finish(t1, Some(image(1))));
    assert_eq!(c.master().pixels(), &vec![1, 1, 1]);
    // the second is superseded: the worker takes the third
    let (t3, r3) = c.take_latest().unwrap();
    assert_eq!((t3, *r3.window()), (2, 3));
    assert!(c.finish(t3, Some(image(3))));
    assert!(c.take_latest().is_none());
    assert!(!c.is_running());
    assert_eq!(c.master().pixels(), &vec![3, 3, 3]);
    // a later request starts a fresh worker
    assert_eq!(c.update(request(4)), SubmitAction::SpawnWorker);
}

#[test]
fn failed_render_keeps_previous_output() {
    let mut c: MandelUpdate<i64> = MandelUpdate::new(image(9));
    assert!(c.has_ticket_room());
    c.update(request(1));
    let (t, _) = c.take_latest().unwrap();
    assert!(!c.finish(t, None));
    assert_eq!(c.master().pixels(), &vec![9, 9, 9]);
    assert!(c.take_latest().is_none());
}
