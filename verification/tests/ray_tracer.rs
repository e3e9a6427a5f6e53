use raytracer::material::Interaction;
use raytracer::primitive::Ray3;
use raytracer::ray_tracer::{PathEnd, RayTracer, Step};
use raytracer::tone_mapper::ToneMapper;

fn tracer(wd: u32, ht: u32, max_reflections: u8) -> RayTracer {
    RayTracer {
        canvas_wd: wd,
        canvas_ht: ht,
        num_samples: 1,
        max_reflections,
        tone_mapper: ToneMapper::Clamp,
    }
}

#[test]
fn default_settings() {
    let tracer = RayTracer::default();
    assert_eq!(1440, tracer.canvas_wd);
    assert_eq!(720, tracer.canvas_ht);
    assert_eq!(48, tracer.num_samples);
    assert_eq!(16, tracer.max_reflections);
    assert_eq!(ToneMapper::Clamp, tracer.tone_mapper);
}

#[test]
fn pixel_count_is_width_times_height() {
    assert_eq!(6, tracer(3, 2, 1).pixel_count());
    assert_eq!(0, tracer(0, 9, 1).pixel_count());
    assert_eq!(
        18_446_744_065_119_617_025,
        tracer(u32::MAX, u32::MAX, 1).pixel_count()
    );
}

#[test]
fn pixels_are_written_from_the_top_row_down() {
    let tracer = tracer(3, 2, 1);
    assert_eq!((0, 1), tracer.pixel_at(0));
    assert_eq!((1, 1), tracer.pixel_at(1));
    assert_eq!((2, 1), tracer.pixel_at(2));
    assert_eq!((0, 0), tracer.pixel_at(3));
    assert_eq!((1, 0), tracer.pixel_at(4));
    assert_eq!((2, 0), tracer.pixel_at(5));
}

#[test]
fn position_of_undoes_pixel_at() {
    let tracer = tracer(7, 5, 1);
    for k in 0..tracer.pixel_count() {
        let (i, j) = tracer.pixel_at(k);
        assert!(i < 7 && j < 5);
        assert_eq!(k, tracer.position_of(i, j));
    }
    assert_eq!(0, tracer.position_of(0, 4));
    assert_eq!(34, tracer.position_of(6, 0));
    assert_eq!(9, tracer.position_of(2, 3));
}

#[test]
fn flatten_writes_red_green_blue_of_each_pixel() {
    assert_eq!(Vec::<u8>::new(), RayTracer::flatten(&Vec::new()));
    assert_eq!(
        vec![1, 2, 3, 4, 5, 6, 7, 8, 9],
        RayTracer::flatten(&vec![(1, 2, 3), (4, 5, 6), (7, 8, 9)])
    );
}

#[test]
fn a_path_is_exhausted_at_the_limit() {
    let tracer = tracer(1, 1, 3);
    assert!(!tracer.exhausted(0));
    assert!(!tracer.exhausted(2));
    assert!(tracer.exhausted(3));
    assert!(tracer.exhausted(255));
}

#[test]
fn with_no_reflections_every_path_is_exhausted_at_once() {
    let tracer = tracer(1, 1, 0);
    for depth in 0..=255u8 {
        assert!(tracer.exhausted(depth));
    }
}

#[test]
fn step_ends_the_path_or_goes_one_deeper() {
    let tracer = tracer(1, 1, 255);
    match tracer.step::<i32>(0, None) {
        Step::End(PathEnd::Escaped) => {}
        _ => panic!("a ray that meets nothing escapes"),
    }
    match tracer.step(3, Some(Interaction::Terminal { color: 17 })) {
        Step::End(PathEnd::Terminal { color }) => assert_eq!(17, color),
        _ => panic!("a terminal interaction ends the path"),
    }
    let scattered = Interaction::NonTerminal { ray: Ray3::new(1, 2), attenuation: 3 };
    match tracer.step(254, Some(scattered)) {
        Step::Bounce { ray, attenuation, depth } => {
            assert_eq!(1, ray.pos);
            assert_eq!(2, ray.dir);
            assert_eq!(3, attenuation);
            assert_eq!(255, depth);
        }
        _ => panic!("a scattered ray goes on"),
    }
}

#[test]
fn ray_new_keeps_origin_and_direction() {
    let ray = Ray3::new([1.0f32, 2.0, 3.0], [0.0f32, 0.0, -1.0]);
    assert_eq!([1.0, 2.0, 3.0], ray.pos);
    assert_eq!([0.0, 0.0, -1.0], ray.dir);
}
