use naive_reduce::naive::base::ReduceDimNaive;
use naive_reduce::naive::kernel::{reduce, ReduceError};
use naive_reduce::naive::max_dim::MaxDim;
use naive_reduce::naive::mean_dim::MeanDim;
use naive_reduce::naive::min_dim::MinDim;
use naive_reduce::naive::prod_dim::ProdDim;
use naive_reduce::naive::sum_dim::SumDim;
use naive_reduce::tensor::Tensor;

fn row_i32<RD: ReduceDimNaive<i32>>(row: Vec<i32>) -> Result<i32, ReduceError> {
    let n = row.len() as u32;
    let input = Tensor::<i32>::new(vec![n], row).unwrap();
    let mut output = Tensor::<i32>::filled(vec![1], 99).unwrap();
    reduce::<RD, i32, i32>(&input, &mut output, 0)?;
    Ok(output.get(0))
}

#[test]
fn sum_adds_the_entries() {
    assert_eq!(row_i32::<SumDim>(vec![1, 2, 3, 4]), Ok(10));
    assert_eq!(row_i32::<SumDim>(vec![-5, 2]), Ok(-3));
    assert_eq!(row_i32::<SumDim>(vec![]), Ok(0));
}

#[test]
fn sum_wraps_on_overflow() {
    assert_eq!(row_i32::<SumDim>(vec![i32::MAX, 1]), Ok(i32::MIN));
    assert_eq!(row_i32::<SumDim>(vec![i32::MIN, -1]), Ok(i32::MAX));
    assert_eq!(row_i32::<SumDim>(vec![i32::MAX, i32::MAX, 2]), Ok(0));
}

#[test]
fn prod_multiplies_the_entries() {
    assert_eq!(row_i32::<ProdDim>(vec![2, 3, 4]), Ok(24));
    assert_eq!(row_i32::<ProdDim>(vec![-2, 3]), Ok(-6));
    assert_eq!(row_i32::<ProdDim>(vec![]), Ok(1));
}

#[test]
fn prod_wraps_on_overflow() {
    assert_eq!(row_i32::<ProdDim>(vec![65536, 65536]), Ok(0));
    assert_eq!(row_i32::<ProdDim>(vec![i32::MAX, 2]), Ok(-2));
    assert_eq!(row_i32::<ProdDim>(vec![i32::MIN, -1]), Ok(i32::MIN));
}

#[test]
fn mean_divides_the_sum_and_rounds_toward_zero() {
    assert_eq!(row_i32::<MeanDim>(vec![1, 2, 3, 6]), Ok(3));
    assert_eq!(row_i32::<MeanDim>(vec![7, 0]), Ok(3));
    assert_eq!(row_i32::<MeanDim>(vec![-7, 0]), Ok(-3));
    assert_eq!(row_i32::<MeanDim>(vec![-1, 0, 0]), Ok(0));
    assert_eq!(row_i32::<MeanDim>(vec![-6, -6, -6]), Ok(-6));
}

#[test]
fn mean_is_sum_divided_by_the_size() {
    let rows: Vec<Vec<i32>> = vec![
        vec![5],
        vec![1, 2],
        vec![-9, 4, 4],
        vec![100, -3, 7, 7, 11],
        vec![i32::MAX, i32::MAX, i32::MAX],
    ];
    for row in rows {
        let n = row.len() as i32;
        let sum = row_i32::<SumDim>(row.clone()).unwrap();
        assert_eq!(row_i32::<MeanDim>(row), Ok(sum / n));
    }
}

#[test]
fn mean_over_empty_dimension_is_undefined() {
    assert_eq!(row_i32::<MeanDim>(vec![]), Err(ReduceError::UndefinedResult));
    let input = Tensor::<i32>::new(vec![2, 0], vec![]).unwrap();
    let mut output = Tensor::<i32>::filled(vec![2, 1], 99).unwrap();
    assert_eq!(
        reduce::<MeanDim, i32, i32>(&input, &mut output, 1),
        Err(ReduceError::UndefinedResult)
    );
    assert_eq!(output.data(), &vec![99, 99]);
}

#[test]
fn mean_is_undefined_where_the_count_wraps_to_zero() {
    let input = Tensor::<u8>::new(vec![256], vec![1u8; 256]).unwrap();
    let mut output = Tensor::<u8>::filled(vec![1], 99).unwrap();
    assert_eq!(
        reduce::<MeanDim, u8, u8>(&input, &mut output, 0),
        Err(ReduceError::UndefinedResult)
    );
    assert!(!<MeanDim as ReduceDimNaive<u8>>::is_defined_for(256));
    assert!(!<MeanDim as ReduceDimNaive<u8>>::is_defined_for(0));
    assert!(<MeanDim as ReduceDimNaive<u8>>::is_defined_for(255));
    assert!(<MeanDim as ReduceDimNaive<u8>>::is_defined_for(257));
    assert!(<MeanDim as ReduceDimNaive<i32>>::is_defined_for(u32::MAX));
    assert!(!<MeanDim as ReduceDimNaive<i64>>::is_defined_for(0));
}

#[test]
fn mean_divides_by_the_count_as_the_element_type_holds_it() {
    // 257 entries of one: the sum wraps to 1 and the count to 1.
    let input = Tensor::<u8>::new(vec![257], vec![1u8; 257]).unwrap();
    let mut output = Tensor::<u8>::filled(vec![1], 99).unwrap();
    assert_eq!(reduce::<MeanDim, u8, u8>(&input, &mut output, 0), Ok(()));
    assert_eq!(output.data(), &vec![1u8]);
    // 130 entries of two in `i8`: the sum wraps to 4, the count to -126.
    let input = Tensor::<i8>::new(vec![130], vec![2i8; 130]).unwrap();
    let mut output = Tensor::<i8>::filled(vec![1], 99).unwrap();
    assert_eq!(reduce::<MeanDim, i8, i8>(&input, &mut output, 0), Ok(()));
    assert_eq!(output.data(), &vec![0i8]);
}

#[test]
fn mean_of_lowest_over_minus_one_count_wraps() {
    // Not reachable with a count from a size, so through the accumulator:
    // 255 entries in `i8` count as -1, and -128 / -1 wraps to -128.
    let mut output = Tensor::<i8>::filled(vec![1], 0).unwrap();
    <MeanDim as ReduceDimNaive<i8>>::assign_naive::<i8>(&mut output, i8::MIN, 255, 0);
    assert_eq!(output.data(), &vec![i8::MIN]);
}

#[test]
fn max_and_min_pick_the_extremes() {
    assert_eq!(row_i32::<MaxDim>(vec![3, -7, 12, 12, 0]), Ok(12));
    assert_eq!(row_i32::<MinDim>(vec![3, -7, 12, -7, 0]), Ok(-7));
    assert_eq!(row_i32::<MaxDim>(vec![]), Ok(i32::MIN));
    assert_eq!(row_i32::<MinDim>(vec![]), Ok(i32::MAX));
}

#[test]
fn every_accumulator_starts_from_its_seed() {
    assert_eq!(<SumDim as ReduceDimNaive<u16>>::initialize_naive(), 0);
    assert_eq!(<MeanDim as ReduceDimNaive<i64>>::initialize_naive(), 0);
    assert_eq!(<ProdDim as ReduceDimNaive<u8>>::initialize_naive(), 1);
    assert_eq!(<MaxDim as ReduceDimNaive<i16>>::initialize_naive(), i16::MIN);
    assert_eq!(<MinDim as ReduceDimNaive<u64>>::initialize_naive(), u64::MAX);
}

#[test]
fn steps_replace_the_accumulator() {
    let mut sum = 250u8;
    <SumDim as ReduceDimNaive<u8>>::inner_loop_naive(&mut sum, 10, 0);
    assert_eq!(sum, 4);
    let mut product = -3i64;
    <ProdDim as ReduceDimNaive<i64>>::inner_loop_naive(&mut product, 5, 0);
    assert_eq!(product, -15);
    let mut largest = 4i16;
    <MaxDim as ReduceDimNaive<i16>>::inner_loop_naive(&mut largest, 4, 1);
    assert_eq!(largest, 4);
    <MaxDim as ReduceDimNaive<i16>>::inner_loop_naive(&mut largest, 5, 2);
    assert_eq!(largest, 5);
    let mut smallest = 4u32;
    <MinDim as ReduceDimNaive<u32>>::inner_loop_naive(&mut smallest, 9, 1);
    assert_eq!(smallest, 4);
    <MinDim as ReduceDimNaive<u32>>::inner_loop_naive(&mut smallest, 0, 2);
    assert_eq!(smallest, 0);
}

#[test]
fn sum_along_the_middle_dimension() {
    // shape [2, 3, 2], entries 0..12
    let data: Vec<i64> = (0..12).collect();
    let input = Tensor::<i64>::new(vec![2, 3, 2], data).unwrap();
    let mut output = Tensor::<i64>::filled(vec![2, 1, 2], 0).unwrap();
    assert_eq!(reduce::<SumDim, i64, i64>(&input, &mut output, 1), Ok(()));
    assert_eq!(output.data(), &vec![0 + 2 + 4, 1 + 3 + 5, 6 + 8 + 10, 7 + 9 + 11]);
}
