use candle_core::{DType, Device, Tensor};
use titan_core::quant::{PolarQuant, QJL};
use titan_core::rope::RotaryEmbedding;
use titan_core::session::states_in_place;
use titan_core::tensor::{
    broadcast_shape, is_integer_dtype_name, shape_fits_usize, shape_is_empty, tensor_dtype_name,
    tensor_is_cpu, tensor_shape,
};

#[test]
fn qjl_compress_takes_signs() {
    let x = Tensor::new(&[[1.5f32, -2.0, 0.0], [-0.1, 3.0, -7.0]], &Device::Cpu).unwrap();
    let s = QJL::compress(&x).unwrap();
    assert_eq!(s.dims(), &[2, 3]);
    let v: Vec<Vec<f32>> = s.to_vec2().unwrap();
    assert_eq!(v, vec![vec![1.0, -1.0, 0.0], vec![-1.0, 1.0, -1.0]]);
}

#[test]
fn polar_decompress_broadcasts_radius() {
    let r = Tensor::new(&[[2.0f32], [3.0]], &Device::Cpu).unwrap();
    let d = Tensor::new(&[[1.0f32, 0.5], [-1.0, 2.0]], &Device::Cpu).unwrap();
    let y = PolarQuant::decompress(&r, &d).unwrap();
    assert_eq!(y.dims(), &[2, 2]);
    let v: Vec<Vec<f32>> = y.to_vec2().unwrap();
    assert_eq!(v, vec![vec![2.0, 1.0], vec![-3.0, 6.0]]);
}

#[test]
fn polar_decompress_rejects_incompatible_shapes() {
    let r = Tensor::new(&[[2.0f32, 1.0, 1.0]], &Device::Cpu).unwrap();
    let d = Tensor::new(&[[1.0f32, 0.5], [-1.0, 2.0]], &Device::Cpu).unwrap();
    assert!(PolarQuant::decompress(&r, &d).is_err());
}

fn tables(rows: usize, width: usize, cos: f32, sin: f32) -> RotaryEmbedding {
    let c = Tensor::full(cos, (rows, width), &Device::Cpu).unwrap();
    let s = Tensor::full(sin, (rows, width), &Device::Cpu).unwrap();
    RotaryEmbedding::from_tables(s, c).unwrap()
}

#[test]
fn rope_apply_keeps_shape_and_rotates_halves() {
    let x = Tensor::new(&[[[1.0f32, 2.0, 3.0, 4.0], [5.0, 6.0, 7.0, 8.0]]], &Device::Cpu).unwrap();
    // cos = 1, sin = 0: the identity
    let id = tables(16, 4, 1.0, 0.0);
    let y = id.apply(&x, 3).unwrap();
    assert_eq!(y.dims(), &[1, 2, 4]);
    assert_eq!(y.to_vec3::<f32>().unwrap(), x.to_vec3::<f32>().unwrap());
    // cos = 0, sin = 1: rotate_half(x) = [-x2, x1]
    let rot = tables(16, 4, 0.0, 1.0);
    let y = rot.apply(&x, 0).unwrap();
    assert_eq!(y.to_vec3::<f32>().unwrap(), vec![vec![vec![-3.0, -4.0, 1.0, 2.0], vec![-7.0, -8.0, 5.0, 6.0]]]);
}

#[test]
fn rope_apply_near_table_end() {
    let x = Tensor::ones((3, 4), DType::F32, &Device::Cpu).unwrap();
    let rope = tables(4, 4, 1.0, 0.0);
    // positions 3.. would run past the table: the rows are shifted back
    let y = rope.apply(&x, 3).unwrap();
    assert_eq!(y.dims(), &[3, 4]);
    // a sequence longer than the table cannot be broadcast against it
    let long = Tensor::ones((6, 4), DType::F32, &Device::Cpu).unwrap();
    assert!(rope.apply(&long, 0).is_err());
}

#[test]
fn rope_apply_with_real_tables_at_position_zero() {
    // with cos(0) = 1 and sin(0) = 0 the first position is unchanged
    let rows: Vec<f32> = (0..2).flat_map(|p| (0..4).map(move |_| (p as f32 * 0.5).cos())).collect();
    let srows: Vec<f32> = (0..2).flat_map(|p| (0..4).map(move |_| (p as f32 * 0.5).sin())).collect();
    let c = Tensor::from_vec(rows, (2, 4), &Device::Cpu).unwrap();
    let s = Tensor::from_vec(srows, (2, 4), &Device::Cpu).unwrap();
    let rope = RotaryEmbedding::from_tables(s, c).unwrap();
    let x = Tensor::new(&[[1.0f32, 2.0, 3.0, 4.0]], &Device::Cpu).unwrap();
    let y = rope.apply(&x, 0).unwrap();
    assert_eq!(y.to_vec2::<f32>().unwrap(), vec![vec![1.0, 2.0, 3.0, 4.0]]);
}

#[test]
fn quantizers_accept_empty_tensors() {
    let x = Tensor::zeros((0, 4), DType::F32, &Device::Cpu).unwrap();
    let s = QJL::compress(&x).unwrap();
    assert_eq!(s.dims(), &[0, 4]);
    let r = Tensor::zeros((0, 1), DType::F32, &Device::Cpu).unwrap();
    let y = PolarQuant::decompress(&r, &x).unwrap();
    assert_eq!(y.dims(), &[0, 4]);
}

#[test]
fn rope_apply_refuses_unusable_tables() {
    let x = Tensor::ones((2, 4), DType::F32, &Device::Cpu).unwrap();
    // tables narrower than the features
    let narrow = tables(8, 2, 1.0, 0.0);
    assert!(narrow.apply(&x, 0).is_err());
    // a cosine table without axes
    let scalar = Tensor::new(1f32, &Device::Cpu).unwrap();
    assert!(RotaryEmbedding::from_tables(scalar.clone(), scalar).is_none());
    // a sine table of another shape than the cosine table
    let c = Tensor::ones((8, 4), DType::F32, &Device::Cpu).unwrap();
    let s = Tensor::zeros((1, 4), DType::F32, &Device::Cpu).unwrap();
    assert!(RotaryEmbedding::from_tables(s, c).is_none());
    // an odd number of features
    let odd = Tensor::ones((2, 3), DType::F32, &Device::Cpu).unwrap();
    assert!(tables(8, 4, 1.0, 0.0).apply(&odd, 0).is_err());
}

#[test]
fn rope_tables_report_their_size() {
    let rope = tables(6, 4, 1.0, 0.0);
    assert_eq!(rope.table_len(), 6);
    assert_eq!(rope.table_width(), 4);
    // single-row tables broadcast over any sequence length
    let one = tables(1, 4, 1.0, 0.0);
    let x = Tensor::ones((5, 4), DType::F32, &Device::Cpu).unwrap();
    assert_eq!(one.apply(&x, 0).unwrap().dims(), &[5, 4]);
    // features fewer than the table width use the first columns
    let x = Tensor::ones((2, 2), DType::F32, &Device::Cpu).unwrap();
    assert_eq!(rope.apply(&x, 1).unwrap().dims(), &[2, 2]);
}

#[test]
fn qjl_compress_integer_tensor() {
    let x = Tensor::new(&[3u32, 0, 7], &Device::Cpu).unwrap();
    let s = QJL::compress(&x).unwrap();
    assert_eq!(s.to_vec1::<u32>().unwrap(), vec![1, 0, 1]);
    assert_eq!(tensor_dtype_name(&s), "u32");
}

#[test]
fn tensor_queries() {
    let x = Tensor::zeros((2, 0, 5), DType::F32, &Device::Cpu).unwrap();
    assert_eq!(tensor_shape(&x), vec![2, 0, 5]);
    assert_eq!(tensor_dtype_name(&x), "f32");
    assert!(tensor_is_cpu(&x));
}

#[test]
fn shape_products() {
    assert!(shape_fits_usize(&vec![]));
    assert!(shape_fits_usize(&vec![3, 0, 7]));
    assert!(shape_fits_usize(&vec![0, usize::MAX]));
    assert!(!shape_fits_usize(&vec![usize::MAX, 2, 0]));
    assert!(!shape_fits_usize(&vec![1 << 40, 1 << 40]));
}

#[test]
fn broadcast_shapes() {
    assert_eq!(broadcast_shape(&vec![2, 1], &vec![2, 3]), Some(vec![2, 3]));
    assert_eq!(broadcast_shape(&vec![4, 1, 3], &vec![5, 1]), Some(vec![4, 5, 3]));
    assert_eq!(broadcast_shape(&vec![], &vec![7]), Some(vec![7]));
    assert_eq!(broadcast_shape(&vec![1, 3], &vec![2, 2]), None);
}

#[test]
fn rope_admits_its_callers() {
    let rope = tables(8, 4, 1.0, 0.0);
    let x = Tensor::ones((2, 4), DType::F32, &Device::Cpu).unwrap();
    assert!(rope.admits(&x, 0));
    assert!(rope.admits(&x, usize::MAX - 2));
    assert!(!rope.admits(&x, usize::MAX));
    let flat = Tensor::ones(4, DType::F32, &Device::Cpu).unwrap();
    assert!(!rope.admits(&flat, 0));
    // an integer input that would be negated
    let xi = Tensor::ones((2, 4), DType::U8, &Device::Cpu).unwrap();
    assert!(!rope.admits(&xi, 0));
    // an integer input multiplied unchecked with integer tables of its type
    let c = Tensor::full(2u8, (1, 1), &Device::Cpu).unwrap();
    let s = Tensor::full(2u8, (1, 1), &Device::Cpu).unwrap();
    let int_rope = RotaryEmbedding::from_tables(s, c).unwrap();
    let big = Tensor::new(&[[200u8]], &Device::Cpu).unwrap();
    assert!(!int_rope.admits(&big, 0));
    // an empty integer input is harmless
    let empty = Tensor::zeros((0, 1), DType::U8, &Device::Cpu).unwrap();
    assert!(int_rope.admits(&empty, 0));
    // (one feature is odd: refused, without any arithmetic)
    assert!(int_rope.apply(&empty, 0).is_err());
}

#[test]
fn element_type_and_emptiness_queries() {
    assert!(is_integer_dtype_name(&"u32".to_string()));
    assert!(is_integer_dtype_name(&"i64".to_string()));
    assert!(!is_integer_dtype_name(&"f32".to_string()));
    assert!(!is_integer_dtype_name(&"bf16".to_string()));
    assert!(shape_is_empty(&vec![3, 0]));
    assert!(!shape_is_empty(&vec![3, 2]));
    assert!(!shape_is_empty(&vec![]));
}

#[test]
fn session_states_in_place() {
    let good = vec![
        Tensor::zeros((2, 3, 3), DType::F32, &Device::Cpu).unwrap(),
        Tensor::zeros((2, 3, 3), DType::F32, &Device::Cpu).unwrap(),
    ];
    assert!(states_in_place(&good));
    assert!(states_in_place(&vec![]));
    let bad = vec![
        Tensor::zeros((2, 3, 3), DType::F32, &Device::Cpu).unwrap(),
        Tensor::zeros((2, 3, 3), DType::F64, &Device::Cpu).unwrap(),
    ];
    assert!(!states_in_place(&bad));
}

