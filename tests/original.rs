use keccak::keccak256::Keccak as BlockKeccak;
use keccak::keccakf::KeccakF64;
use keccak::params::WIDTH;
use keccak::utils::{
    from_bits_to_u8, from_u32_to_u64, from_u64_to_u32, from_u64_to_u8, from_u8_to_bits,
    from_u8_to_u64,
};
use rand::Rng;
use tiny_keccak::Hasher;

fn expected_keccak(input: &[u8]) -> String {
    let mut hasher = tiny_keccak::Keccak::v256();
    hasher.update(&input);
    let mut hash = [0u8; 32];
    hasher.finalize(&mut hash);
    hex::encode(hash)
}

fn random_bytes_vec<R: Rng>(length: usize, rng: &mut R) -> Vec<u8> {
    (0..length).map(|_| rng.gen()).collect::<Vec<u8>>()
}

#[test]
fn test_u8_xor() {
    let a: u8 = 2;
    let b: u8 = 6;

    let a_bools = from_u8_to_bits(a);
    let b_bools = from_u8_to_bits(b);

    assert_eq!(a_bools.len(), b_bools.len());

    let mut bool_xor = a_bools;
    for i in 0..bool_xor.len() {
        bool_xor[i] ^= b_bools[i];
    }
    println!("expect: {:?}", bool_xor);

    let actual = a ^ b;
    let actual = from_u8_to_bits(actual);
    println!("actual: {:?}", actual);
    assert_eq!(actual, bool_xor);
}

#[test]
fn test_u8_vec_xor() {
    let m = vec![false; WIDTH];
    assert_eq!(m.len(), 1600);

    let target_bool = [false; 16];
    let src_bool = [true; 16];

    let target_bytes = target_bool
        .chunks(8)
        .map(|x| from_bits_to_u8(x))
        .collect::<Vec<_>>();
    let src_bytes = src_bool
        .chunks(8)
        .map(|x| from_bits_to_u8(x))
        .collect::<Vec<_>>();

    let mut bool_xor = target_bool;
    for i in 0..16 {
        bool_xor[i] ^= src_bool[i];
    }

    let expect = bool_xor
        .chunks(8)
        .map(|x| from_bits_to_u8(x))
        .collect::<Vec<_>>();

    let mut actual_res = target_bytes;
    for i in 0..actual_res.len() {
        actual_res[i] ^= src_bytes[i];
    }

    assert_eq!(expect, actual_res);
}

#[test]
fn test_u64_to_u32() {
    let u64_src_vec: Vec<u64> = vec![1123453452345, 2512341324123412341];
    let u32_src_vec = from_u64_to_u32(&u64_src_vec);
    println!("u64_src_vec: {:?}", u64_src_vec);
    println!("u32_src_vec: {:?} \n", u32_src_vec);

    let u64_dst_vec: Vec<u64> = vec![22422, 565375765756];
    let u32_dst_vec = from_u64_to_u32(&u64_dst_vec);
    println!("u64_dst_vec: {:?}", u64_dst_vec);
    println!("u32_dst_vec: {:?} \n", u32_dst_vec);

    let mut u64_res_xor = vec![];
    let mut u64_res_and = vec![];
    let mut u64_res_rot = vec![];
    let mut u64_res_not = vec![];

    for (a, b) in u64_src_vec.into_iter().zip(u64_dst_vec) {
        u64_res_xor.push(a ^ b);
        u64_res_and.push(a & b);
        u64_res_rot.push(a.rotate_left(2));
        u64_res_not.push(!a);
    }
    println!("u64_res_xor: {:?}", u64_res_xor);
    println!("u64_res_and: {:?}", u64_res_and);
    println!("u64_res_rot: {:?}", u64_res_rot);
    println!("u64_res_not: {:?}\n", u64_res_not);

    let mut u32res_xor = vec![];
    let mut u32res_and = vec![];
    let mut u32res_rot = vec![];
    let mut u32res_not = vec![];
    for (a, b) in u32_src_vec.into_iter().zip(u32_dst_vec) {
        u32res_xor.push(a ^ b);
        u32res_and.push(a & b);
        u32res_rot.push(a.rotate_left(2));
        u32res_not.push(!a);
    }
    println!("u32res_xor: {:?}", u32res_xor);
    println!("u32res_and: {:?}", u32res_and);
    println!("u32res_rot: {:?}", u32res_rot);
    println!("u32res_not: {:?}\n", u32res_not);

    let u32_to_u64_xor = from_u32_to_u64(&u32res_xor);
    let u32_to_u64_and = from_u32_to_u64(&u32res_and);
    let u32_to_u64_rot = from_u32_to_u64(&u32res_rot);
    let u32_to_u64_not = from_u32_to_u64(&u32res_not);
    println!("u32_to_u64_xor: {:?}", u32_to_u64_xor);
    println!("u32_to_u64_and: {:?}", u32_to_u64_and);
    println!("u32_to_u64_rot: {:?}", u32_to_u64_rot);
    println!("u32_to_u64_not: {:?}\n", u32_to_u64_not);

    assert_eq!(u32_to_u64_xor, u64_res_xor);
    assert_eq!(u32_to_u64_and, u64_res_and);
    assert_eq!(u32_to_u64_not, u64_res_not);
}

#[test]
fn test_permutation_test() {
    let inputs = [4_u64; 25];
    let output = KeccakF64::round(inputs, 1);
    println!("output: {:?}", output);
    let expected: [u64; 25] = [
        70368744210570,
        140737505132544,
        70368744308736,
        16777224,
        140737488486400,
        2147483712,
        281474985099264,
        65,
        281477124194304,
        8388609,
        268435472,
        2560,
        270532608,
        2064,
        2097664,
        1073750016,
        549756076032,
        576460752303431680,
        1074003968,
        576461302059237376,
        4398046511106,
        288247968337756160,
        4398046511136,
        17592186044418,
        288230376151711776,
    ];
    assert_eq!(output, expected);

    println!("aaa: {:?}", 0x80 ^ 0);
    println!("aaa: {:?}", 0 ^ 0x80);
}

#[test]
fn test_padding() {
    let hex_in = "6162636462636465636465666465666765666768666768696768696a68696a6b696a6b6c6a6b6c6d6b6c6d6e6c6d6e6f6d6e6f706e6f7071";
    let hex: String = hex_in
        .chars()
        .filter(|c| c.is_ascii_digit() || c.is_ascii_alphabetic())
        .collect();

    let bytes: Vec<u8> = (0..hex.len())
        .step_by(2)
        .map(|i| u8::from_str_radix(&hex[i..i + 2], 16).unwrap())
        .collect::<Vec<u8>>();

    let num_bytes = bytes.len();
    println!("inputs_bytes: {:?}", bytes);
    println!("inputs_bytes len: {:?}", bytes.len());
    println!("hex_in len: {:?}", hex_in.len());

    let mut stack_1 = bytes;
    stack_1.reverse();
    println!("stack_1: {:?}", stack_1);

    let stack_2 = (1..num_bytes)
        .map(|i| stack_1[num_bytes - i])
        .collect::<Vec<_>>();
    println!("stack_2: {:?}", stack_2);

    let mut stack_3 = stack_1;
    stack_3.push(0x80);
    for _ in 0..59 {
        stack_3.push(0);
    }
    println!("0");
    println!("59*8: {:X}", 59 * 8);
    assert_eq!(stack_3.len(), 56 + 1 + 59);
}

#[test]
#[allow(non_snake_case)]
fn test_gen_RC_32_bits() {
    let rc_32_bits = from_u64_to_u32(&KeccakF64::RC_64_BITS.to_vec());
    assert_eq!(rc_32_bits.len(), 48);
    for x in &rc_32_bits {
        println!("{:6X}", x);
    }
    assert_eq!(rc_32_bits[4], 0x808a);
    assert_eq!(rc_32_bits[5], 0x80000000);
}

#[test]
fn test_keccak256_without_tiny_keccak() {
    let rng = &mut rand::thread_rng();
    for length in [1, 4, 136, 272, 1000, 20000] {
        let input = random_bytes_vec(length, rng);
        let keccak = BlockKeccak::v256();
        let z = keccak.keccak256(&input);
        let hex_out = hex::encode(&z);
        assert_eq!(hex_out, expected_keccak(&input));
    }
}

#[test]
fn test_keccak512_with_tiny_keccak() {
    let rng = &mut rand::thread_rng();
    for length in [1, 4, 136, 272, 1000, 20000] {
        let input = random_bytes_vec(length, rng);
        let keccak = BlockKeccak::v256();
        let z = keccak.keccak256(&input);
        let hex_out = hex::encode(&z);
        assert_eq!(hex_out, expected_keccak(&input));
    }
}

#[test]
fn test_keccakf_without_ciruit() {
    let input = "bb45f489bea73ef400b0ef4cd65dcec3565b0fd75c6eb248f1fefc84dd216650327e5a5c9b02ed7ce898f8ecb2e045cded87742a7723e7fddd9ac96c8aa70f4601000000000000000000000000000000000000000000000000000000000000000000000000000000000000000000000000000000000000000000000000000000000000000000008000000000000000000000000000000000000000000000000000000000000000000000000000000000000000000000000000000000000000000000000000000000";
    let expected_output = "61060054a4f8cd82609992a7604a95c9165bc95ae016a5299dd7d400dddbea9a3069922d826066fae8aad9aac3d937d6b6db11d4e3ce7663ef4236ca2f1a97a3de6259030506c8f50dcec6588ba1e7598a5f39e74f8f858f3fc04a371d52d761cb369205487758026a035dc5edd42a6bb4f1cc84c2f5a4f7915993a7b209935c40a06104fc2d4d3e337a79a6671f69fb0b3a14ccdf72f66f59828ab0f43bedab3622aa17746d3e536b9bd39974f215916563a5ed55d944d6137ce8cf03677e57bc75e502054f51b0";

    let input_u8 = hex::decode(input).unwrap();
    let lanes = from_u8_to_u64(&input_u8);
    let mut state = [0u64; 25];
    state.copy_from_slice(&lanes);
    let output = KeccakF64::keccakf(state);
    let output_hex = hex::encode(from_u64_to_u8(&output.to_vec()));
    assert_eq!(output_hex, expected_output);
}
