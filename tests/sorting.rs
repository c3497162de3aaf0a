use hip_sort::device::{device_count, RUNTIME_SUCCESS};
use hip_sort::memory::{DeviceMemory, Error, Stream};
use hip_sort::memory_ext::MemoryExt;
use hip_sort::phases::{check_sorted_inner, launch_phase, sort_even_inner, sort_odd_inner};
use hip_sort::sorting::{all_true, check_sorted, sort};

fn upload<T: Copy + Default>(arr: Vec<T>, stream: &Stream) -> DeviceMemory<T> {
    let mut mem = DeviceMemory::from_host(vec![T::default(); arr.len()]);
    mem.copy_from_host(&arr).unwrap();
    stream.synchronize();
    mem
}

#[test]
fn is_sorted() {
    let stream = Stream::new();
    let arr: Vec<i32> = vec![1, 2, 3, 4, 5, 6, 7, 8];
    let mem = upload(arr, &stream);
    assert!(check_sorted(&mem, Some(&stream)).unwrap());
}

#[test]
fn is_not_sorted() {
    let stream = Stream::new();
    let arr: Vec<i32> = vec![1, 3, 2, 4, 5, 6, 8, 7];
    let mem = upload(arr, &stream);
    assert!(!check_sorted(&mem, Some(&stream)).unwrap());
}

#[test]
fn check_sorted_blocking_matches_async() {
    let stream = Stream::new();
    let sorted = DeviceMemory::from_host(vec![1i32, 2, 3, 4, 5, 6, 7, 8]);
    let unsorted = DeviceMemory::from_host(vec![1i32, 3, 2, 4, 5, 6, 8, 7]);
    assert_eq!(sorted.check_sorted(), Ok(true));
    assert_eq!(sorted.check_sorted_async(&stream), Ok(true));
    assert_eq!(unsorted.check_sorted(), Ok(false));
    assert_eq!(unsorted.check_sorted_async(&stream), Ok(false));
}

#[test]
fn sort_ascending_concrete() {
    let mut mem = DeviceMemory::from_host(vec![5i32, 3, 4, 1, 2]);
    assert_eq!(mem.sort(), Ok(()));
    assert_eq!(mem.to_host(), vec![1, 2, 3, 4, 5]);
}

#[test]
fn sort_descending_concrete() {
    let mut mem = DeviceMemory::from_host(vec![5i32, 3, 4, 1, 2]);
    assert_eq!(mem.sort_desc(), Ok(()));
    assert_eq!(mem.to_host(), vec![5, 4, 3, 2, 1]);
}

#[test]
fn sort_async_forms() {
    let stream = Stream::new();
    let mut up = DeviceMemory::from_host(vec![9u16, 0, 7, 7, 3, 1]);
    let mut down = DeviceMemory::from_host(vec![9u16, 0, 7, 7, 3, 1]);
    assert_eq!(up.sort_async(&stream), Ok(()));
    assert_eq!(down.sort_desc_async(&stream), Ok(()));
    stream.synchronize();
    assert_eq!(up.to_host(), vec![0, 1, 3, 7, 7, 9]);
    assert_eq!(down.to_host(), vec![9, 7, 7, 3, 1, 0]);
}

#[test]
fn ascending_sort_passes_check() {
    let mut mem = DeviceMemory::from_host(vec![8i64, 7, 6, 5, 4, 3, 2, 1]);
    mem.sort().unwrap();
    assert_eq!(mem.check_sorted(), Ok(true));
    let mut mixed = DeviceMemory::from_host(vec![4u8, 200, 0, 13, 13, 255, 1, 99, 42, 7]);
    mixed.sort().unwrap();
    assert_eq!(mixed.check_sorted(), Ok(true));
    assert_eq!(mixed.to_host(), vec![0, 1, 4, 7, 13, 13, 42, 99, 200, 255]);
}

#[test]
fn descending_sort_is_non_increasing() {
    // The order check only tests non-decreasing order, so the descending
    // result is checked after reversing it.
    let mut mem = DeviceMemory::from_host(vec![1i16, 2, 3, 4, 5, 6, 7, 8]);
    mem.sort_desc().unwrap();
    let mut host = mem.to_host();
    assert_eq!(host, vec![8, 7, 6, 5, 4, 3, 2, 1]);
    assert_eq!(mem.check_sorted(), Ok(false));
    host.reverse();
    let reversed = DeviceMemory::from_host(host);
    assert_eq!(reversed.check_sorted(), Ok(true));
}

#[test]
fn sorting_sorted_array_again_is_identity() {
    let input = vec![-3i32, -3, 0, 2, 9, 11, 40];
    let mut mem = DeviceMemory::from_host(input.clone());
    mem.sort().unwrap();
    assert_eq!(mem.to_host(), input);
    mem.sort().unwrap();
    assert_eq!(mem.to_host(), input);
}

#[test]
fn ordered_input_is_never_reordered() {
    let mut down = DeviceMemory::from_host(vec![50u32, 40, 40, 10, 0]);
    down.sort_desc().unwrap();
    assert_eq!(down.to_host(), vec![50, 40, 40, 10, 0]);
    let mut up = DeviceMemory::from_host(vec![0u32, 10, 40, 40, 50]);
    up.sort().unwrap();
    assert_eq!(up.to_host(), vec![0, 10, 40, 40, 50]);
}

#[test]
fn short_arrays_sort_but_fail_check() {
    let mut empty: DeviceMemory<i32> = DeviceMemory::from_host(vec![]);
    assert_eq!(empty.sort(), Ok(()));
    assert_eq!(empty.sort_desc(), Ok(()));
    assert_eq!(empty.to_host(), Vec::<i32>::new());
    assert_eq!(empty.check_sorted(), Err(Error::TooFewElements));
    let mut one = DeviceMemory::from_host(vec![7i32]);
    assert_eq!(one.sort(), Ok(()));
    assert_eq!(one.to_host(), vec![7]);
    assert_eq!(one.check_sorted(), Err(Error::TooFewElements));
    assert_eq!(check_sorted(&one, Some(&Stream::new())), Err(Error::TooFewElements));
}

#[test]
fn same_scenario_across_types() {
    let mut a = DeviceMemory::from_host(vec![3i8, 1, 2, 0]);
    let mut b = DeviceMemory::from_host(vec![3i16, 1, 2, 0]);
    let mut c = DeviceMemory::from_host(vec![3i32, 1, 2, 0]);
    let mut d = DeviceMemory::from_host(vec![3i64, 1, 2, 0]);
    let mut e = DeviceMemory::from_host(vec![3u8, 1, 2, 0]);
    let mut f = DeviceMemory::from_host(vec![3u16, 1, 2, 0]);
    let mut g = DeviceMemory::from_host(vec![3u32, 1, 2, 0]);
    let mut h = DeviceMemory::from_host(vec![3u64, 1, 2, 0]);
    a.sort().unwrap();
    b.sort().unwrap();
    c.sort().unwrap();
    d.sort().unwrap();
    e.sort().unwrap();
    f.sort().unwrap();
    g.sort().unwrap();
    h.sort().unwrap();
    assert_eq!(a.to_host(), vec![0, 1, 2, 3]);
    assert_eq!(b.to_host(), vec![0, 1, 2, 3]);
    assert_eq!(c.to_host(), vec![0, 1, 2, 3]);
    assert_eq!(d.to_host(), vec![0, 1, 2, 3]);
    assert_eq!(e.to_host(), vec![0, 1, 2, 3]);
    assert_eq!(f.to_host(), vec![0, 1, 2, 3]);
    assert_eq!(g.to_host(), vec![0, 1, 2, 3]);
    assert_eq!(h.to_host(), vec![0, 1, 2, 3]);
}

#[test]
fn extreme_values_sort() {
    let mut s = DeviceMemory::from_host(vec![i64::MAX, 0, i64::MIN, -1]);
    s.sort().unwrap();
    assert_eq!(s.to_host(), vec![i64::MIN, -1, 0, i64::MAX]);
    let mut u = DeviceMemory::from_host(vec![0u64, u64::MAX, 1, u64::MAX - 1]);
    u.sort_desc().unwrap();
    assert_eq!(u.to_host(), vec![u64::MAX, u64::MAX - 1, 1, 0]);
}

#[test]
fn odd_length_sorts_fully() {
    let stream = Stream::new();
    let mut mem = DeviceMemory::from_host(vec![3i32, 2, 1]);
    assert_eq!(sort(&mut mem, &stream, true), Ok(()));
    assert_eq!(mem.to_host(), vec![1, 2, 3]);
    let mut down = DeviceMemory::from_host(vec![1i32, 2, 3]);
    assert_eq!(sort(&mut down, &stream, false), Ok(()));
    assert_eq!(down.to_host(), vec![3, 2, 1]);
    let mut five = DeviceMemory::from_host(vec![5u8, 4, 3, 2, 1]);
    five.sort().unwrap();
    assert_eq!(five.to_host(), vec![1, 2, 3, 4, 5]);
    let mut seven = DeviceMemory::from_host(vec![1i8, 2, 3, 4, 5, 6, 7]);
    seven.sort_desc().unwrap();
    assert_eq!(seven.to_host(), vec![7, 6, 5, 4, 3, 2, 1]);
}

#[test]
fn copy_length_mismatch() {
    let mut mem = DeviceMemory::from_host(vec![1i32, 2, 3]);
    assert_eq!(mem.copy_from_host(&vec![4, 5]), Err(Error::LengthMismatch));
    assert_eq!(mem.to_host(), vec![1, 2, 3]);
    let mut dst = vec![0i32; 4];
    assert_eq!(mem.copy_to_host(&mut dst), Err(Error::LengthMismatch));
    let mut dst = vec![0i32; 3];
    assert_eq!(mem.copy_to_host(&mut dst), Ok(()));
    assert_eq!(dst, vec![1, 2, 3]);
    assert_eq!(mem.count(), 3);
}

#[test]
fn kernel_tasks() {
    let mut arr = vec![4i32, 3, 2, 1, 0];
    sort_even_inner(&mut arr, 1, true);
    assert_eq!(arr, vec![4, 3, 1, 2, 0]);
    sort_odd_inner(&mut arr, 1, true);
    assert_eq!(arr, vec![4, 3, 1, 0, 2]);
    sort_odd_inner(&mut arr, 0, false);
    assert_eq!(arr, vec![4, 3, 1, 0, 2]);
    let mut flags = vec![true; 4];
    check_sorted_inner(&arr, &mut flags, 4, 0);
    check_sorted_inner(&arr, &mut flags, 4, 3);
    check_sorted_inner(&arr, &mut flags, 4, 9);
    assert_eq!(flags, vec![false, true, true, true]);
}

#[test]
fn phase_launches() {
    let mut arr = vec![5u8, 4, 3, 2, 1];
    launch_phase(&mut arr, false, true);
    assert_eq!(arr, vec![4, 5, 2, 3, 1]);
    launch_phase(&mut arr, true, true);
    assert_eq!(arr, vec![4, 2, 5, 1, 3]);
    launch_phase(&mut arr, true, false);
    assert_eq!(arr, vec![4, 5, 2, 3, 1]);
}

#[test]
fn all_true_reduction() {
    assert!(all_true(&vec![]));
    assert!(all_true(&vec![true, true]));
    assert!(!all_true(&vec![true, false, true]));
}

#[test]
fn device_count_translates_status() {
    assert_eq!(device_count(RUNTIME_SUCCESS, 2), Ok(2));
    assert_eq!(device_count(RUNTIME_SUCCESS, 0), Ok(0));
    assert_eq!(device_count(100, 3), Err(Error::Runtime(100)));
}
