use imgconv::{convolve, convolve_in_place, kernel_centre, ConvolutionExt, Error, Volume};

fn checker_input() -> Volume<u8> {
    let input_pixels = vec![1, 1, 1, 0, 0,
                            0, 1, 1, 1, 0,
                            0, 0, 1, 1, 1,
                            0, 0, 1, 1, 0,
                            0, 1, 1, 0, 0];
    Volume::from_shape_data(5, 5, 1, input_pixels).unwrap()
}

fn x_kernel() -> Volume<u8> {
    Volume::from_shape_data(3, 3, 1, vec![1, 0, 1, 0, 1, 0, 1, 0, 1]).unwrap()
}

#[test]
fn bad_dimensions() {
    let error = Err(Error::ChannelDimensionMismatch);
    let error2 = Err(Error::ChannelDimensionMismatch);

    let mut i = Volume::<i64>::zeros(5, 5, 3);
    let bad_kern = Volume::<i64>::zeros(2, 2, 2);
    assert_eq!(i.conv2d(&bad_kern), error);

    let data_clone = i.clone();
    let res = i.conv2d_inplace(&bad_kern);
    assert_eq!(res, error2);
    assert_eq!(i, data_clone);

    let good_kern = Volume::<i64>::zeros(2, 2, 3);
    assert!(i.conv2d(&good_kern).is_ok());
    assert!(i.conv2d_inplace(&good_kern).is_ok());
}

#[test]
fn basic_conv() {
    let output_pixels = vec![4, 3, 4,
                             2, 4, 3,
                             2, 3, 4];
    let input = checker_input();
    let kern = x_kernel();
    let expected = Volume::<u8>::from_shape_data(3, 3, 1, output_pixels).unwrap();

    assert_eq!(Ok(expected), input.conv2d(&kern));
}

#[test]
fn basic_conv_inplace() {
    let output_pixels = vec![1, 1, 1, 0, 0,
                             0, 4, 3, 4, 0,
                             0, 2, 4, 3, 1,
                             0, 2, 3, 4, 0,
                             0, 1, 1, 0, 0];
    let mut input = checker_input();
    let kern = x_kernel();
    let expected = Volume::<u8>::from_shape_data(5, 5, 1, output_pixels).unwrap();

    input.conv2d_inplace(&kern).unwrap();

    assert_eq!(expected, input);
}

#[test]
fn kernel_centre_odd_and_even() {
    assert_eq!(kernel_centre(3, 3), (1, 1));
    assert_eq!(kernel_centre(1, 5), (0, 2));
    assert_eq!(kernel_centre(2, 4), (0, 1));
    assert_eq!(kernel_centre(6, 7), (2, 3));
}

#[test]
fn channel_mismatch_both_entry_points() {
    let mut input = Volume::from_shape_data(3, 3, 1, (1..=9).collect::<Vec<i32>>()).unwrap();
    let kernel = Volume::<i32>::zeros(1, 1, 2);
    let before = input.clone();
    assert_eq!(convolve(&input, &kernel), Err(Error::ChannelDimensionMismatch));
    assert_eq!(convolve_in_place(&mut input, &kernel), Err(Error::ChannelDimensionMismatch));
    assert_eq!(input, before);
}

#[test]
fn degenerate_size_both_entry_points() {
    // A 7x3 kernel has row offset 3: 5 - 2 * 3 rows remain, fewer than one.
    let mut input = Volume::from_shape_data(5, 5, 1, (0..25).collect::<Vec<i32>>()).unwrap();
    let kernel = Volume::<i32>::zeros(7, 3, 1);
    let before = input.clone();
    assert_eq!(convolve(&input, &kernel), Err(Error::InvalidDimensions));
    assert_eq!(convolve_in_place(&mut input, &kernel), Err(Error::InvalidDimensions));
    assert_eq!(input, before);

    // Too wide along the columns only.
    let wide = Volume::<i32>::zeros(1, 7, 1);
    assert_eq!(convolve(&input, &wide), Err(Error::InvalidDimensions));
}

#[test]
fn empty_kernel_is_invalid() {
    let input = Volume::<i32>::zeros(4, 4, 1);
    assert_eq!(convolve(&input, &Volume::<i32>::zeros(0, 3, 1)), Err(Error::InvalidDimensions));
    assert_eq!(convolve(&input, &Volume::<i32>::zeros(3, 0, 1)), Err(Error::InvalidDimensions));
}

#[test]
fn kernel_as_large_as_odd_input_gives_one_cell() {
    let input = Volume::from_shape_data(3, 3, 1, (1..=9).collect::<Vec<i32>>()).unwrap();
    let kernel = Volume::from_shape_data(3, 3, 1, vec![1; 9]).unwrap();
    let out = convolve(&input, &kernel).unwrap();
    assert_eq!((out.rows(), out.cols(), out.channels()), (1, 1, 1));
    assert_eq!(out.get(0, 0, 0), 45);
}

#[test]
fn shape_follows_kernel_centre() {
    let input = Volume::<i64>::zeros(9, 8, 2);
    for (kr, kc) in [(1usize, 1usize), (2, 3), (3, 2), (4, 5), (5, 4)] {
        let kernel = Volume::<i64>::zeros(kr, kc, 2);
        let out = convolve(&input, &kernel).unwrap();
        let (ro, co) = kernel_centre(kr, kc);
        assert_eq!(out.rows(), 9 - 2 * ro);
        assert_eq!(out.cols(), 8 - 2 * co);
        assert_eq!(out.channels(), 2);
    }
}

#[test]
fn even_kernel_leaves_far_edge_zero() {
    // 2x2 kernel: centre (0, 0), so the output is 3x3 but only 2x2 windows fit.
    let input = Volume::from_shape_data(3, 3, 1, (1..=9).collect::<Vec<i32>>()).unwrap();
    let kernel = Volume::from_shape_data(2, 2, 1, vec![1, 2, 3, 4]).unwrap();
    let out = convolve(&input, &kernel).unwrap();
    let expected = Volume::from_shape_data(3, 3, 1, vec![37, 47, 0, 67, 77, 0, 0, 0, 0]).unwrap();
    assert_eq!(out, expected);
}

#[test]
fn channels_are_convolved_independently() {
    // Two channels interleaved: channel 0 holds 1..=9, channel 1 holds 10, 20, ...
    let mut data = Vec::new();
    for k in 1..=9 {
        data.push(k);
        data.push(10 * k);
    }
    let input = Volume::from_shape_data(3, 3, 2, data).unwrap();
    // Channel 0 weighs the centre, channel 1 the top-left corner.
    let mut kdata = vec![0; 18];
    kdata[4 * 2] = 1;
    kdata[1] = 2;
    let kernel = Volume::from_shape_data(3, 3, 2, kdata).unwrap();
    let out = convolve(&input, &kernel).unwrap();
    assert_eq!(out.data(), &vec![5, 20]);
}

#[test]
fn in_place_keeps_border_and_matches_convolve() {
    let input = Volume::from_shape_data(4, 5, 1, (0..20).collect::<Vec<i64>>()).unwrap();
    let kernel = Volume::from_shape_data(3, 3, 1, vec![1, -1, 2, 0, 3, 1, -2, 1, 1]).unwrap();
    let out = convolve(&input, &kernel).unwrap();
    let mut updated = input.clone();
    convolve_in_place(&mut updated, &kernel).unwrap();
    for r in 0..4 {
        for c in 0..5 {
            let inside = (1..3).contains(&r) && (1..4).contains(&c);
            if inside {
                assert_eq!(updated.get(r, c, 0), out.get(r - 1, c - 1, 0));
            } else {
                assert_eq!(updated.get(r, c, 0), input.get(r, c, 0));
            }
        }
    }
}

#[test]
fn convolve_twice_gives_identical_results() {
    let input = checker_input();
    let kern = x_kernel();
    let first = convolve(&input, &kern);
    let second = convolve(&input, &kern);
    assert_eq!(first, second);
    assert_eq!(input, checker_input());
}

#[test]
fn wrapping_arithmetic_on_overflow() {
    let input = Volume::from_shape_data(1, 2, 1, vec![200u8, 100u8]).unwrap();
    let kernel = Volume::from_shape_data(1, 2, 1, vec![1u8, 1u8]).unwrap();
    let out = convolve(&input, &kernel).unwrap();
    assert_eq!(out.get(0, 0, 0), 44);
    let big = Volume::from_shape_data(1, 1, 1, vec![16u8]).unwrap();
    let square = convolve(&big, &big).unwrap();
    assert_eq!(square.get(0, 0, 0), 0);
}

#[test]
fn zero_channels_give_empty_output() {
    let input = Volume::<u32>::zeros(3, 3, 0);
    let kernel = Volume::<u32>::zeros(1, 1, 0);
    let out = convolve(&input, &kernel).unwrap();
    assert_eq!((out.rows(), out.cols(), out.channels()), (3, 3, 0));
    assert!(out.data().is_empty());
}

#[test]
fn from_shape_data_checks_length() {
    assert!(Volume::from_shape_data(2, 2, 2, vec![0u16; 7]).is_none());
    assert!(Volume::from_shape_data(2, 2, 2, vec![0u16; 9]).is_none());
    assert!(Volume::from_shape_data(usize::MAX, 2, 1, vec![0u16; 0]).is_none());
    assert!(Volume::from_shape_data(usize::MAX, 2, 0, vec![0u16; 0]).is_some());
    let v = Volume::from_shape_data(2, 1, 2, vec![1u16, 2, 3, 4]).unwrap();
    assert_eq!(v.get(1, 0, 0), 3);
    assert_eq!(v.into_data(), vec![1, 2, 3, 4]);
}

#[test]
fn set_changes_one_cell() {
    let mut v = Volume::<i8>::zeros(2, 2, 2);
    v.set(1, 0, 1, -5);
    assert_eq!(v.data(), &vec![0, 0, 0, 0, 0, -5, 0, 0]);
}
