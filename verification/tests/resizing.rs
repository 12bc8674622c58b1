use canvas_resize::cover::compute_cover;
use canvas_resize::geometry::{CoverFit, CropOrigin, Dimensions, ResizeError, TargetSpec};
use canvas_resize::raster::Raster;
use canvas_resize::resize::{
    crop_to_fit, resample, resize_cover, resize_inside, MAX_SAMPLED_EXTENT,
};

/// An image whose every byte is different from its neighbours': the four
/// channels of the pixel in column `x` and row `y` are `x`, `y`, `x + y` and
/// 255.
fn gradient(width: u32, height: u32) -> Raster {
    let mut pixels = Vec::new();
    for y in 0..height {
        for x in 0..width {
            pixels.push(x as u8);
            pixels.push(y as u8);
            pixels.push((x + y) as u8);
            pixels.push(255);
        }
    }
    Raster { width, height, pixels }
}

fn uniform(width: u32, height: u32, rgba: [u8; 4]) -> Raster {
    let mut pixels = Vec::new();
    for _ in 0..(width as usize * height as usize) {
        pixels.push(rgba[0]);
        pixels.push(rgba[1]);
        pixels.push(rgba[2]);
        pixels.push(rgba[3]);
    }
    Raster { width, height, pixels }
}

fn pixel(r: &Raster, x: u32, y: u32) -> [u8; 4] {
    let at = 4 * (y as usize * r.width as usize + x as usize);
    [r.pixels[at], r.pixels[at + 1], r.pixels[at + 2], r.pixels[at + 3]]
}

#[test]
fn resize_inside_to_own_dimensions_is_identical() {
    let source = gradient(8, 6);
    let out = resize_inside(&source, Some(8), Some(6)).unwrap();
    assert_eq!(out, source);
}

#[test]
fn resize_inside_without_target_is_identical() {
    let source = gradient(5, 3);
    assert_eq!(resize_inside(&source, None, None), Ok(source));
}

#[test]
fn resize_inside_to_a_larger_box_is_identical() {
    let source = gradient(4, 3);
    assert_eq!(resize_inside(&source, Some(8), Some(6)), Ok(source));
}

#[test]
fn resize_cover_to_own_dimensions_is_identical() {
    let source = gradient(8, 6);
    let out = resize_cover(&source, Some(8), Some(6)).unwrap();
    assert_eq!(out, source);
}

#[test]
fn resize_cover_without_target_is_identical() {
    let source = gradient(5, 3);
    assert_eq!(resize_cover(&source, None, None), Ok(source));
}

#[test]
fn resize_inside_halves_the_image() {
    let source = gradient(8, 6);
    let out = resize_inside(&source, Some(4), None).unwrap();
    assert_eq!((out.width, out.height), (4, 3));
    assert_eq!(out.pixels.len(), 4 * 4 * 3);
}

#[test]
fn resize_inside_gives_the_floored_extent() {
    // The inside extent of 10 by 7 in a box 5 wide is 5 by 3.
    let out = resize_inside(&gradient(10, 7), Some(5), None).unwrap();
    assert_eq!((out.width, out.height), (5, 3));
    assert_eq!(out.pixels.len(), 4 * 5 * 3);
}

#[test]
fn resize_inside_keeps_a_uniform_colour() {
    let source = uniform(9, 9, [10, 200, 30, 255]);
    let out = resize_inside(&source, Some(3), Some(3)).unwrap();
    assert_eq!((out.width, out.height), (3, 3));
    for y in 0..3 {
        for x in 0..3 {
            assert_eq!(pixel(&out, x, y), [10, 200, 30, 255]);
        }
    }
}

#[test]
fn resize_inside_to_a_zero_box_is_empty() {
    let out = resize_inside(&gradient(8, 6), Some(0), None).unwrap();
    assert_eq!((out.width, out.height), (0, 0));
    assert!(out.pixels.is_empty());
}

#[test]
fn resize_inside_may_lose_one_axis() {
    let out = resize_inside(&gradient(3, 1), Some(1), None).unwrap();
    assert_eq!((out.width, out.height), (1, 0));
    assert!(out.pixels.is_empty());
    let out = resize_inside(&gradient(1, 3), None, Some(1)).unwrap();
    assert_eq!((out.width, out.height), (0, 1));
    assert!(out.pixels.is_empty());
}

#[test]
fn resize_cover_cuts_the_centred_window() {
    // Only the width is constrained: nothing is scaled, and the middle four
    // columns are kept.
    let source = gradient(8, 6);
    let out = resize_cover(&source, Some(4), None).unwrap();
    assert_eq!((out.width, out.height), (4, 6));
    assert_eq!(out.pixels.len(), 4 * 4 * 6);
    for y in 0..6 {
        for x in 0..4 {
            assert_eq!(pixel(&out, x, y), pixel(&source, x + 2, y));
        }
    }
}

#[test]
fn resize_cover_cuts_rows_too() {
    let source = gradient(4, 9);
    let out = resize_cover(&source, None, Some(4)).unwrap();
    assert_eq!((out.width, out.height), (4, 4));
    for y in 0..4 {
        for x in 0..4 {
            assert_eq!(pixel(&out, x, y), pixel(&source, x, y + 2));
        }
    }
}

#[test]
fn resize_cover_narrows_a_box_that_exceeds_the_source() {
    let source = gradient(4, 3);
    assert_eq!(resize_cover(&source, Some(8), Some(6)), Ok(source.clone()));
    let out = resize_cover(&source, Some(2), Some(6)).unwrap();
    assert_eq!((out.width, out.height), (2, 3));
    for y in 0..3 {
        for x in 0..2 {
            assert_eq!(pixel(&out, x, y), pixel(&source, x + 1, y));
        }
    }
}

#[test]
fn resize_cover_scales_then_crops() {
    // 10 by 7 into 5 by 5: scaled to 7 by 5, one column cut on the left.
    let out = resize_cover(&uniform(10, 7, [1, 2, 3, 255]), Some(5), Some(5)).unwrap();
    assert_eq!((out.width, out.height), (5, 5));
    assert_eq!(out.pixels.len(), 4 * 5 * 5);
    for y in 0..5 {
        for x in 0..5 {
            assert_eq!(pixel(&out, x, y), [1, 2, 3, 255]);
        }
    }
}

#[test]
fn resize_cover_keeps_the_middle_of_a_scaled_image() {
    // Left half black, right half white, 16 by 4. Covering 4 by 4 scales
    // nothing and keeps columns 6 to 9: two black, two white.
    let mut source = uniform(16, 4, [0, 0, 0, 255]);
    for y in 0..4usize {
        for x in 8..16usize {
            let at = 4 * (y * 16 + x);
            source.pixels[at] = 255;
            source.pixels[at + 1] = 255;
            source.pixels[at + 2] = 255;
        }
    }
    let out = resize_cover(&source, Some(4), Some(4)).unwrap();
    assert_eq!((out.width, out.height), (4, 4));
    for y in 0..4 {
        assert_eq!(pixel(&out, 0, y), [0, 0, 0, 255]);
        assert_eq!(pixel(&out, 1, y), [0, 0, 0, 255]);
        assert_eq!(pixel(&out, 2, y), [255, 255, 255, 255]);
        assert_eq!(pixel(&out, 3, y), [255, 255, 255, 255]);
    }
}

#[test]
fn resize_rejects_an_empty_source() {
    for (w, h) in [(0, 6), (8, 0), (0, 0)] {
        let source = Raster { width: w, height: h, pixels: Vec::new() };
        assert_eq!(resize_inside(&source, Some(4), None), Err(ResizeError::InvalidInput));
        assert_eq!(resize_cover(&source, Some(4), None), Err(ResizeError::InvalidInput));
        assert_eq!(resize_inside(&source, None, None), Err(ResizeError::InvalidInput));
        assert_eq!(resize_cover(&source, None, None), Err(ResizeError::InvalidInput));
    }
}

#[test]
fn resize_rejects_a_short_buffer() {
    let mut source = gradient(8, 6);
    source.pixels.pop();
    assert_eq!(resize_inside(&source, Some(4), None), Err(ResizeError::Resampling));
    assert_eq!(resize_cover(&source, Some(4), None), Err(ResizeError::Resampling));
    assert_eq!(resize_inside(&source, None, None), Err(ResizeError::Resampling));
    assert_eq!(resize_cover(&source, None, None), Err(ResizeError::Resampling));
}

#[test]
fn resize_ignores_bytes_beyond_the_last_pixel() {
    let exact = gradient(8, 6);
    let mut padded = exact.clone();
    padded.pixels.extend_from_slice(&[9, 9, 9, 9, 9]);
    assert_eq!(resize_inside(&padded, None, None), Ok(exact.clone()));
    assert_eq!(resize_cover(&padded, Some(8), Some(6)), Ok(exact.clone()));
    assert_eq!(
        resize_inside(&padded, Some(4), None),
        resize_inside(&exact, Some(4), None)
    );
}

#[test]
fn resize_rejects_an_image_beyond_the_resampler_limits() {
    // One pixel wider than the resampler takes.
    let wide = uniform(MAX_SAMPLED_EXTENT + 1, 1, [1, 2, 3, 4]);
    assert_eq!(resize_inside(&wide, Some(4), None), Err(ResizeError::Resampling));
    let two_rows = uniform(MAX_SAMPLED_EXTENT + 1, 2, [1, 2, 3, 4]);
    assert_eq!(resize_cover(&two_rows, Some(4), Some(1)), Err(ResizeError::Resampling));
    assert_eq!(
        resample(&wide, Dimensions { width: 4, height: 1 }),
        Err(ResizeError::Resampling)
    );
    assert_eq!(
        resample(&gradient(2, 2), Dimensions { width: MAX_SAMPLED_EXTENT + 1, height: 1 }),
        Err(ResizeError::Resampling)
    );
    // Where nothing is resampled the limit does not apply.
    assert_eq!(resize_inside(&wide, None, None), Ok(wide.clone()));
    let cut = resize_cover(&wide, Some(3), None).unwrap();
    assert_eq!((cut.width, cut.height), (3, 1));
    assert_eq!(cut.pixels, [1, 2, 3, 4, 1, 2, 3, 4, 1, 2, 3, 4]);
}

#[test]
fn resize_rejects_extents_whose_buffer_cannot_exist() {
    let source = Raster { width: u32::MAX, height: u32::MAX, pixels: vec![0; 16] };
    assert_eq!(resize_inside(&source, Some(u32::MAX - 1), None), Err(ResizeError::Resampling));
    assert_eq!(resize_inside(&source, None, None), Err(ResizeError::Resampling));
    assert_eq!(resize_cover(&source, Some(u32::MAX - 1), Some(5)), Err(ResizeError::Resampling));
}

#[test]
fn resample_gives_the_extent_asked_for() {
    let source = gradient(8, 6);
    for (w, h) in [(4, 3), (5, 3), (8, 1), (1, 6), (16, 12), (3, 9), (0, 0), (0, 4), (4, 0)] {
        let out = resample(&source, Dimensions { width: w, height: h }).unwrap();
        assert_eq!((out.width, out.height), (w, h));
        assert_eq!(out.pixels.len(), 4 * w as usize * h as usize);
    }
}

#[test]
fn resample_to_the_same_extent_copies() {
    let source = gradient(7, 5);
    assert_eq!(resample(&source, Dimensions { width: 7, height: 5 }), Ok(source));
}

#[test]
fn resample_rejects_what_cannot_be_resampled() {
    let empty = Raster { width: 0, height: 4, pixels: Vec::new() };
    assert_eq!(
        resample(&empty, Dimensions { width: 2, height: 2 }),
        Err(ResizeError::InvalidInput)
    );
    let short = Raster { width: 2, height: 2, pixels: vec![0; 15] };
    assert_eq!(
        resample(&short, Dimensions { width: 1, height: 1 }),
        Err(ResizeError::Resampling)
    );
    let small = gradient(2, 2);
    assert_eq!(
        resample(&small, Dimensions { width: u32::MAX, height: u32::MAX }),
        Err(ResizeError::Resampling)
    );
}

fn fit(scaled: (u32, u32), origin: (u32, u32), final_size: (u32, u32)) -> CoverFit {
    CoverFit {
        scaled: Dimensions { width: scaled.0, height: scaled.1 },
        crop_origin: CropOrigin { x: origin.0, y: origin.1 },
        final_size: Dimensions { width: final_size.0, height: final_size.1 },
    }
}

#[test]
fn crop_to_fit_cuts_the_window() {
    let source = gradient(7, 5);
    let out = crop_to_fit(&source, fit((7, 5), (2, 1), (3, 4))).unwrap();
    assert_eq!((out.width, out.height), (3, 4));
    assert_eq!(out.pixels.len(), 4 * 3 * 4);
    for y in 0..4 {
        for x in 0..3 {
            assert_eq!(pixel(&out, x, y), pixel(&source, x + 2, y + 1));
        }
    }
}

#[test]
fn crop_to_fit_of_the_whole_image_is_the_image() {
    let source = gradient(7, 5);
    assert_eq!(crop_to_fit(&source, fit((7, 5), (0, 0), (7, 5))), Ok(source));
}

#[test]
fn crop_to_fit_takes_the_last_row_and_column() {
    let source = gradient(7, 5);
    let out = crop_to_fit(&source, fit((7, 5), (6, 4), (1, 1))).unwrap();
    assert_eq!((out.width, out.height), (1, 1));
    assert_eq!(out.pixels, [6, 4, 10, 255]);
}

#[test]
fn crop_to_fit_of_an_empty_window_is_empty() {
    let source = gradient(7, 5);
    let out = crop_to_fit(&source, fit((7, 5), (3, 0), (0, 5))).unwrap();
    assert_eq!((out.width, out.height), (0, 5));
    assert!(out.pixels.is_empty());
    let out = crop_to_fit(&source, fit((7, 5), (7, 5), (0, 0))).unwrap();
    assert_eq!((out.width, out.height), (0, 0));
    assert!(out.pixels.is_empty());
}

#[test]
fn crop_to_fit_rejects_a_short_buffer() {
    let mut source = gradient(7, 5);
    source.pixels.pop();
    assert_eq!(
        crop_to_fit(&source, fit((7, 5), (2, 1), (3, 4))),
        Err(ResizeError::Resampling)
    );
}

#[test]
fn resize_cover_is_sizing_then_resampling_then_cropping() {
    let source = gradient(10, 7);
    for (tw, th) in [(Some(5), Some(5)), (Some(4), None), (None, Some(2)), (Some(9), Some(1))] {
        let fit = compute_cover(
            Dimensions { width: 10, height: 7 },
            TargetSpec { target_width: tw, target_height: th },
        )
        .unwrap();
        let resampled = resample(&source, fit.scaled).unwrap();
        assert_eq!(resize_cover(&source, tw, th), crop_to_fit(&resampled, fit));
    }
}
