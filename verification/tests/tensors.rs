use naive_reduce::naive::argmax::Argmax;
use naive_reduce::naive::kernel::reduce;
use naive_reduce::tensor::{reduced_shape, volume_is, volume_of, Tensor};

#[test]
fn tensor_needs_one_element_per_coordinate() {
    assert!(Tensor::<i32>::new(vec![2, 3], vec![0; 6]).is_some());
    assert!(Tensor::<i32>::new(vec![2, 3], vec![0; 5]).is_none());
    assert!(Tensor::<i32>::new(vec![2, 3], vec![0; 7]).is_none());
    assert!(Tensor::<i32>::new(vec![], vec![4]).is_some());
    assert!(Tensor::<i32>::new(vec![], vec![]).is_none());
    assert!(Tensor::<i32>::new(vec![5, 0, 2], vec![]).is_some());
    assert!(Tensor::<i32>::new(vec![5, 0, 2], vec![1]).is_none());
}

#[test]
fn tensor_keeps_shape_and_data() {
    let t = Tensor::<u16>::new(vec![2, 2], vec![1, 2, 3, 4]).unwrap();
    assert_eq!(t.rank(), 2);
    assert_eq!(t.shape(0), 2);
    assert_eq!(t.shape(1), 2);
    assert_eq!(t.len(), 4);
    assert_eq!(t.get(2), 3);
    assert_eq!(t.shape_vec(), &vec![2u32, 2]);
    assert_eq!(t.data(), &vec![1u16, 2, 3, 4]);
}

#[test]
fn set_replaces_one_element() {
    let mut t = Tensor::<u16>::new(vec![3], vec![1, 2, 3]).unwrap();
    t.set(1, 9);
    assert_eq!(t.data(), &vec![1u16, 9, 3]);
    assert_eq!(t.shape_vec(), &vec![3u32]);
}

#[test]
fn filled_tensor_repeats_the_value() {
    let t = Tensor::<i8>::filled(vec![2, 3], -2).unwrap();
    assert_eq!(t.data(), &vec![-2i8; 6]);
    assert_eq!(t.shape_vec(), &vec![2u32, 3]);
    let empty = Tensor::<i8>::filled(vec![2, 0], -2).unwrap();
    assert_eq!(empty.len(), 0);
    let scalar = Tensor::<i8>::filled(vec![], 5).unwrap();
    assert_eq!(scalar.data(), &vec![5i8]);
}

#[test]
fn filled_tensor_must_fit_in_memory_indices() {
    let huge = vec![u32::MAX, u32::MAX, u32::MAX, u32::MAX, u32::MAX];
    assert!(Tensor::<u8>::filled(huge, 0).is_none());
}

#[test]
fn volume_of_counts_coordinates() {
    assert_eq!(volume_of(&vec![]), Some(1));
    assert_eq!(volume_of(&vec![7]), Some(7));
    assert_eq!(volume_of(&vec![2, 3, 4]), Some(24));
    assert_eq!(volume_of(&vec![2, 0, 4]), Some(0));
    assert_eq!(volume_of(&vec![u32::MAX, u32::MAX, u32::MAX, 0]), Some(0));
    assert_eq!(volume_of(&vec![u32::MAX, u32::MAX, u32::MAX, u32::MAX, u32::MAX]), None);
    assert_eq!(volume_of(&vec![0, u32::MAX, u32::MAX, u32::MAX, u32::MAX, u32::MAX]), Some(0));
}

#[test]
fn volume_is_compares_with_a_length() {
    assert!(volume_is(&vec![2, 3], 6));
    assert!(!volume_is(&vec![2, 3], 5));
    assert!(volume_is(&vec![9, 0], 0));
    assert!(!volume_is(&vec![u32::MAX, u32::MAX, u32::MAX, u32::MAX, u32::MAX], 0));
}

#[test]
fn reduced_shape_collapses_one_dimension() {
    assert_eq!(reduced_shape(&vec![2, 3, 4], 0), Some(vec![1, 3, 4]));
    assert_eq!(reduced_shape(&vec![2, 3, 4], 1), Some(vec![2, 1, 4]));
    assert_eq!(reduced_shape(&vec![2, 3, 4], 2), Some(vec![2, 3, 1]));
    assert_eq!(reduced_shape(&vec![0], 0), Some(vec![1]));
    assert_eq!(reduced_shape(&vec![2, 3, 4], 3), None);
    assert_eq!(reduced_shape(&vec![], 0), None);
}

#[test]
fn output_shape_is_input_shape_with_dimension_collapsed() {
    let shapes: Vec<Vec<u32>> = vec![vec![4], vec![2, 3], vec![2, 3, 2], vec![1, 1, 1, 5]];
    for shape in shapes {
        let n: usize = shape.iter().map(|d| *d as usize).product();
        let input = Tensor::<i32>::new(shape.clone(), (0..n as i32).collect()).unwrap();
        for dim in 0..shape.len() {
            let out_shape = reduced_shape(input.shape_vec(), dim).unwrap();
            let mut expected = shape.clone();
            expected[dim] = 1;
            assert_eq!(out_shape, expected);
            let mut output = Tensor::<u32>::filled(out_shape, 0).unwrap();
            assert_eq!(reduce::<Argmax, i32, u32>(&input, &mut output, dim), Ok(()));
            assert_eq!(output.shape_vec(), &expected);
            assert_eq!(output.len(), n / shape[dim] as usize);
        }
    }
}
