use tfhe_container::aligned::{AlignedBox, AlignedVec};
use tfhe_container::container::{Container, ContainerMut, IntoContainerOwned};
use tfhe_container::par_split::ParSplit;
use tfhe_container::split::Split;

#[test]
fn into_chunks_cuts_exact_pieces() {
    let v: Vec<u64> = vec![1, 2, 3, 4, 5, 6];
    let chunks = Split::into_chunks(&v[..], 2);
    assert_eq!(chunks, vec![&[1u64, 2][..], &[3, 4][..], &[5, 6][..]]);
}

#[test]
fn split_into_cuts_count_pieces() {
    let v: Vec<u64> = (0..12).collect();
    let chunks = Split::split_into(&v[..], 3);
    assert_eq!(chunks.len(), 3);
    assert_eq!(chunks[0], &[0u64, 1, 2, 3][..]);
    assert_eq!(chunks[1], &[4u64, 5, 6, 7][..]);
    assert_eq!(chunks[2], &[8u64, 9, 10, 11][..]);
}

#[test]
fn split_into_zero_chunks_of_empty_buffer() {
    let v: Vec<u64> = Vec::new();
    let chunks = Split::split_into(&v[..], 0);
    assert_eq!(chunks.len(), 1);
    assert!(chunks[0].is_empty());
    let par_chunks = ParSplit::par_split_into(&v[..], 0);
    assert_eq!(par_chunks.len(), 1);
    assert!(par_chunks[0].is_empty());
}

#[test]
fn split_into_one_chunk_is_whole_buffer() {
    let v: Vec<u64> = vec![7, 8, 9];
    let chunks = Split::split_into(&v[..], 1);
    assert_eq!(chunks, vec![&[7u64, 8, 9][..]]);
}

#[test]
fn split_into_as_many_chunks_as_elements() {
    let v: Vec<u64> = vec![7, 8, 9];
    let chunks = Split::split_into(&v[..], 3);
    assert_eq!(chunks, vec![&[7u64][..], &[8][..], &[9][..]]);
}

#[test]
fn split_at_cuts_in_two() {
    let v: Vec<u64> = vec![1, 2, 3, 4, 5];
    let (a, b) = Split::split_at(&v[..], 2);
    assert_eq!(a, &[1u64, 2][..]);
    assert_eq!(b, &[3u64, 4, 5][..]);
    let (c, d) = ParSplit::par_split_at(&v[..], 5);
    assert_eq!(c, &v[..]);
    assert!(d.is_empty());
}

#[test]
fn mutable_chunks_write_through() {
    let mut v: Vec<u64> = vec![0; 6];
    {
        let chunks = Split::split_into(&mut v[..], 3);
        for (i, chunk) in chunks.into_iter().enumerate() {
            for x in chunk.iter_mut() {
                *x = i as u64 + 1;
            }
        }
    }
    assert_eq!(v, vec![1, 1, 2, 2, 3, 3]);
    {
        let chunks = Split::into_chunks(&mut v[..], 3);
        assert_eq!(chunks.len(), 2);
        for chunk in chunks {
            chunk[0] = 0;
        }
    }
    assert_eq!(v, vec![0, 1, 2, 0, 3, 3]);
}

#[test]
fn mutable_split_at_writes_through() {
    let mut v: Vec<u64> = vec![1, 2, 3, 4];
    {
        let (a, b) = Split::split_at(&mut v[..], 1);
        a[0] = 10;
        b[2] = 40;
    }
    assert_eq!(v, vec![10, 2, 3, 40]);
    {
        let (a, b) = ParSplit::par_split_at(&mut v[..], 3);
        a[0] = 11;
        b[0] = 41;
    }
    assert_eq!(v, vec![11, 2, 3, 41]);
}

#[test]
fn parallel_chunks_match_sequential_chunks() {
    let v: Vec<u64> = (0..60).map(|x| x * 3 + 1).collect();
    for k in [1usize, 2, 3, 4, 5, 6, 10, 12, 15, 20, 30, 60] {
        let seq = Split::split_into(&v[..], k);
        let par = ParSplit::par_split_into(&v[..], k);
        assert_eq!(seq.len(), k);
        assert_eq!(seq, par);
        let joined: Vec<u64> = par.concat();
        assert_eq!(joined, v);
    }
}

#[test]
fn into_par_chunks_cuts_exact_pieces() {
    let v: Vec<u64> = vec![1, 2, 3, 4, 5, 6];
    let chunks = ParSplit::into_par_chunks(&v[..], 3);
    assert_eq!(chunks, vec![&[1u64, 2, 3][..], &[4, 5, 6][..]]);
}

#[test]
fn parallel_mutable_chunks_write_through() {
    let mut v: Vec<u64> = vec![5; 8];
    {
        let chunks = ParSplit::par_split_into(&mut v[..], 4);
        assert_eq!(chunks.len(), 4);
        for (i, chunk) in chunks.into_iter().enumerate() {
            chunk[1] = i as u64;
        }
    }
    assert_eq!(v, vec![5, 0, 5, 1, 5, 2, 5, 3]);
}

#[test]
fn containers_report_length_and_view() {
    let v: Vec<u64> = vec![4, 5, 6];
    assert_eq!(Container::container_len(&v), 3);
    assert_eq!(Container::as_view(&v), &[4u64, 5, 6][..]);
    let s: &[u64] = &v[1..];
    assert_eq!(Container::container_len(&s), 2);
    assert_eq!(Container::as_view(&s), &[5u64, 6][..]);
    let b: Box<[u64]> = vec![1u64, 2].into_boxed_slice();
    assert_eq!(Container::container_len(&b), 2);
    let empty: Vec<u64> = Vec::new();
    assert_eq!(Container::container_len(&empty), 0);
}

#[test]
fn containers_write_through_mutable_view() {
    let mut v: Vec<u64> = vec![1, 2, 3];
    ContainerMut::as_mut_view(&mut v)[1] = 20;
    assert_eq!(v, vec![1, 20, 3]);
    let mut b: Box<[u64]> = vec![1u64, 2].into_boxed_slice();
    ContainerMut::as_mut_view(&mut b)[0] = 9;
    assert_eq!(&*b, &[9u64, 2][..]);
    let mut arr = [1u64, 2, 3];
    let mut s: &mut [u64] = &mut arr[..];
    ContainerMut::as_mut_view(&mut s)[2] = 30;
    assert_eq!(Container::container_len(&s), 3);
    assert_eq!(arr, [1, 2, 30]);
}

#[test]
fn aligned_vec_holds_its_words() {
    let mut v = AlignedVec::from_words(vec![3, 1, 4, 1, 5]);
    assert_eq!(v.container_len(), 5);
    assert_eq!(v.as_view(), &[3u64, 1, 4, 1, 5][..]);
    v.as_mut_view()[4] = 9;
    assert_eq!(v.as_view(), &[3u64, 1, 4, 1, 9][..]);
    let ptr = v.as_view().as_ptr() as usize;
    assert_eq!(ptr % 64, 0);
}

#[test]
fn aligned_box_collects_words() {
    let mut b = AlignedBox::collect(vec![2, 7, 1, 8]);
    assert_eq!(b.container_len(), 4);
    assert_eq!(b.as_view(), &[2u64, 7, 1, 8][..]);
    b.as_mut_view()[0] = 0;
    assert_eq!(b.as_view(), &[0u64, 7, 1, 8][..]);
    let empty = AlignedBox::collect(Vec::new());
    assert_eq!(empty.container_len(), 0);
}
