use naive_reduce::naive::argmax::Argmax;
use naive_reduce::naive::argmin::Argmin;
use naive_reduce::naive::base::ReduceDimNaive;
use naive_reduce::naive::kernel::{reduce, reduce_position};
use naive_reduce::naive::mean_dim::MeanDim;
use naive_reduce::naive::prod_dim::ProdDim;
use naive_reduce::naive::sum_dim::SumDim;
use naive_reduce::tensor::{reduced_shape, Tensor};

struct Lcg(u64);

impl Lcg {
    fn next(&mut self) -> u64 {
        self.0 = self.0.wrapping_mul(6364136223846793005).wrapping_add(1442695040888963407);
        self.0 >> 33
    }

    fn below(&mut self, n: u64) -> u64 {
        self.next() % n
    }
}

fn random_tensor(rng: &mut Lcg) -> Tensor<i32> {
    let rank = 1 + rng.below(4) as usize;
    let shape: Vec<u32> = (0..rank).map(|_| 1 + rng.below(4) as u32).collect();
    let n: usize = shape.iter().map(|d| *d as usize).product();
    let data: Vec<i32> = (0..n).map(|_| rng.below(7) as i32 - 3).collect();
    Tensor::<i32>::new(shape, data).unwrap()
}

fn coordinates(shape: &[u32], mut flat: usize) -> Vec<usize> {
    let mut coords = vec![0usize; shape.len()];
    for k in (0..shape.len()).rev() {
        coords[k] = flat % shape[k] as usize;
        flat /= shape[k] as usize;
    }
    coords
}

fn flat_index(shape: &[u32], coords: &[usize]) -> usize {
    let mut flat = 0usize;
    for k in 0..shape.len() {
        flat = flat * shape[k] as usize + coords[k];
    }
    flat
}

/// The entries along `dim` at the coordinate of output position `position`,
/// found through coordinates rather than strides.
fn lane_by_coordinates(input: &Tensor<i32>, dim: usize, position: usize) -> Vec<i32> {
    let shape = input.shape_vec().clone();
    let mut out_shape = shape.clone();
    out_shape[dim] = 1;
    let mut coords = coordinates(&out_shape, position);
    let mut lane = Vec::new();
    for i in 0..shape[dim] as usize {
        coords[dim] = i;
        lane.push(input.get(flat_index(&shape, &coords)));
    }
    lane
}

fn reference_argmax(lane: &[i32]) -> u32 {
    let mut best = i32::MIN;
    let mut index = 0u32;
    for (i, v) in lane.iter().enumerate() {
        if *v > best {
            best = *v;
            index = i as u32;
        }
    }
    index
}

fn reference_argmin(lane: &[i32]) -> u32 {
    let mut best = i32::MAX;
    let mut index = 0u32;
    for (i, v) in lane.iter().enumerate() {
        if *v < best {
            best = *v;
            index = i as u32;
        }
    }
    index
}

#[test]
fn reduce_matches_a_sequential_reference() {
    let mut rng = Lcg(1);
    for _ in 0..200 {
        let input = random_tensor(&mut rng);
        let dim = rng.below(input.rank() as u64) as usize;
        let out_shape = reduced_shape(input.shape_vec(), dim).unwrap();

        let mut arg = Tensor::<u32>::filled(out_shape.clone(), 77).unwrap();
        assert_eq!(reduce::<Argmax, i32, u32>(&input, &mut arg, dim), Ok(()));
        let mut argmin = Tensor::<u32>::filled(out_shape.clone(), 77).unwrap();
        assert_eq!(reduce::<Argmin, i32, u32>(&input, &mut argmin, dim), Ok(()));
        let mut sum = Tensor::<i64>::filled(out_shape.clone(), 77).unwrap();
        assert_eq!(reduce::<SumDim, i32, i64>(&input, &mut sum, dim), Ok(()));
        let mut mean = Tensor::<i32>::filled(out_shape.clone(), 77).unwrap();
        assert_eq!(reduce::<MeanDim, i32, i32>(&input, &mut mean, dim), Ok(()));
        let mut prod = Tensor::<i32>::filled(out_shape.clone(), 77).unwrap();
        assert_eq!(reduce::<ProdDim, i32, i32>(&input, &mut prod, dim), Ok(()));

        for position in 0..arg.len() {
            let lane = lane_by_coordinates(&input, dim, position);
            assert_eq!(arg.get(position), reference_argmax(&lane));
            assert_eq!(argmin.get(position), reference_argmin(&lane));
            let total: i32 = lane.iter().sum();
            assert_eq!(sum.get(position), total as i64);
            assert_eq!(mean.get(position), total / lane.len() as i32);
            assert_eq!(prod.get(position), lane.iter().product::<i32>());
        }
    }
}

#[test]
fn argmax_index_is_the_first_maximum() {
    let mut rng = Lcg(7);
    for _ in 0..200 {
        let input = random_tensor(&mut rng);
        let dim = rng.below(input.rank() as u64) as usize;
        let out_shape = reduced_shape(input.shape_vec(), dim).unwrap();
        let mut output = Tensor::<u32>::filled(out_shape, 0).unwrap();
        assert_eq!(reduce::<Argmax, i32, u32>(&input, &mut output, dim), Ok(()));
        for position in 0..output.len() {
            let lane = lane_by_coordinates(&input, dim, position);
            let index = output.get(position) as usize;
            let largest = *lane.iter().max().unwrap();
            assert_eq!(lane[index], largest);
            assert!(lane[..index].iter().all(|v| *v < largest));
        }
    }
}

#[test]
fn repeated_reduction_gives_identical_output() {
    let mut rng = Lcg(11);
    for _ in 0..100 {
        let input = random_tensor(&mut rng);
        let dim = rng.below(input.rank() as u64) as usize;
        let out_shape = reduced_shape(input.shape_vec(), dim).unwrap();
        let mut first = Tensor::<i16>::filled(out_shape.clone(), 1).unwrap();
        let mut second = Tensor::<i16>::filled(out_shape, -1).unwrap();
        assert_eq!(reduce::<SumDim, i32, i16>(&input, &mut first, dim), Ok(()));
        assert_eq!(reduce::<SumDim, i32, i16>(&input, &mut second, dim), Ok(()));
        assert_eq!(first.data(), second.data());
        assert_eq!(reduce::<SumDim, i32, i16>(&input, &mut first, dim), Ok(()));
        assert_eq!(first.data(), second.data());
    }
}

fn workers_in_order<RD: ReduceDimNaive<i32>>(
    input: &Tensor<i32>,
    dim: usize,
    order: &[usize],
) -> Vec<i32> {
    let out_shape = reduced_shape(input.shape_vec(), dim).unwrap();
    let mut output = Tensor::<i32>::filled(out_shape, 55).unwrap();
    for position in order {
        reduce_position::<RD, i32, i32>(input, &mut output, dim, *position);
    }
    output.data().clone()
}

#[test]
fn workers_do_not_interfere() {
    let mut rng = Lcg(23);
    for _ in 0..100 {
        let input = random_tensor(&mut rng);
        let dim = rng.below(input.rank() as u64) as usize;
        let out_shape = reduced_shape(input.shape_vec(), dim).unwrap();
        let mut whole = Tensor::<i32>::filled(out_shape.clone(), 55).unwrap();
        assert_eq!(reduce::<Argmax, i32, i32>(&input, &mut whole, dim), Ok(()));
        let positions = whole.len();

        let forward: Vec<usize> = (0..positions).collect();
        let backward: Vec<usize> = (0..positions).rev().collect();
        let mut shuffled = forward.clone();
        for k in (1..positions).rev() {
            let j = rng.below(k as u64 + 1) as usize;
            shuffled.swap(k, j);
        }
        assert_eq!(&workers_in_order::<Argmax>(&input, dim, &forward), whole.data());
        assert_eq!(&workers_in_order::<Argmax>(&input, dim, &backward), whole.data());
        assert_eq!(&workers_in_order::<Argmax>(&input, dim, &shuffled), whole.data());

        // each worker alone writes its own position and nothing else
        for position in 0..positions {
            let alone = workers_in_order::<Argmax>(&input, dim, &[position]);
            for q in 0..positions {
                if q == position {
                    assert_eq!(alone[q], whole.get(q));
                } else {
                    assert_eq!(alone[q], 55);
                }
            }
        }
    }
}

#[test]
fn index_cast_is_exact_within_the_output_range() {
    // 300 entries, largest at index 200 and again at 250
    let mut row = vec![0i32; 300];
    row[200] = 9;
    row[250] = 9;
    let input = Tensor::<i32>::new(vec![300], row.clone()).unwrap();
    let mut as_u8 = Tensor::<u8>::filled(vec![1], 0).unwrap();
    assert_eq!(reduce::<Argmax, i32, u8>(&input, &mut as_u8, 0), Ok(()));
    assert_eq!(as_u8.get(0), 200);
    let mut as_i16 = Tensor::<i16>::filled(vec![1], 0).unwrap();
    assert_eq!(reduce::<Argmax, i32, i16>(&input, &mut as_i16, 0), Ok(()));
    assert_eq!(as_i16.get(0), 200);
    let mut as_i64 = Tensor::<i64>::filled(vec![1], 0).unwrap();
    assert_eq!(reduce::<Argmax, i32, i64>(&input, &mut as_i64, 0), Ok(()));
    assert_eq!(as_i64.get(0), 200);
    let mut as_u64 = Tensor::<u64>::filled(vec![1], 0).unwrap();
    assert_eq!(reduce::<Argmax, i32, u64>(&input, &mut as_u64, 0), Ok(()));
    assert_eq!(as_u64.get(0), 200);
    // 200 is beyond `i8`: the index wraps
    let mut as_i8 = Tensor::<i8>::filled(vec![1], 0).unwrap();
    assert_eq!(reduce::<Argmax, i32, i8>(&input, &mut as_i8, 0), Ok(()));
    assert_eq!(as_i8.get(0), 200u32 as i8);
    // beyond `u8`
    row[290] = 10;
    let input = Tensor::<i32>::new(vec![300], row).unwrap();
    assert_eq!(reduce::<Argmax, i32, u8>(&input, &mut as_u8, 0), Ok(()));
    assert_eq!(as_u8.get(0), 34);
}
