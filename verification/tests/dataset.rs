use neural_net::DatasetFormatError;
use neural_net::Digiter;
use neural_net::ImagesReader;
use neural_net::LabelsReader;

fn be(word: u32) -> [u8; 4] {
    [
        (word >> 24) as u8,
        (word >> 16) as u8,
        (word >> 8) as u8,
        word as u8,
    ]
}

fn labels_container(labels: &[u8]) -> Vec<u8> {
    let mut data = Vec::new();
    data.extend_from_slice(&be(2049));
    data.extend_from_slice(&be(labels.len() as u32));
    data.extend_from_slice(labels);
    data
}

fn images_container(width: u32, height: u32, images: &[&[u8]]) -> Vec<u8> {
    let mut data = Vec::new();
    data.extend_from_slice(&be(2051));
    data.extend_from_slice(&be(images.len() as u32));
    data.extend_from_slice(&be(width));
    data.extend_from_slice(&be(height));
    for image in images {
        data.extend_from_slice(image);
    }
    data
}

#[test]
fn labels_reader_hands_out_labels() {
    let mut reader = LabelsReader::create(labels_container(&[7, 2, 9])).unwrap();
    assert_eq!(reader.len(), 3);
    assert_eq!(reader.next(), Some(7));
    assert_eq!(reader.next(), Some(2));
    assert_eq!(reader.next(), Some(9));
    assert_eq!(reader.next(), None);
    assert_eq!(reader.next(), None);
}

#[test]
fn labels_reader_rejects_bad_signature() {
    let mut data = labels_container(&[1]);
    data[3] = 0;
    assert!(matches!(
        LabelsReader::create(data),
        Err(DatasetFormatError::BadSignature)
    ));
}

#[test]
fn labels_reader_rejects_short_header() {
    let data = vec![0, 0, 8, 1, 0, 0];
    assert!(matches!(
        LabelsReader::create(data),
        Err(DatasetFormatError::Truncated)
    ));
}

#[test]
fn labels_reader_rejects_missing_labels() {
    let mut data = labels_container(&[5, 6, 7, 8, 9]);
    data.truncate(11);
    assert!(matches!(
        LabelsReader::create(data),
        Err(DatasetFormatError::Truncated)
    ));
}

#[test]
fn labels_reader_accepts_empty_container() {
    let mut reader = LabelsReader::create(labels_container(&[])).unwrap();
    assert_eq!(reader.len(), 0);
    assert_eq!(reader.next(), None);
}

#[test]
fn images_reader_hands_out_images() {
    let data = images_container(2, 2, &[&[1, 2, 3, 4], &[5, 6, 7, 8]]);
    let mut reader = ImagesReader::create(data).unwrap();
    assert_eq!(reader.len(), 2);
    assert_eq!(reader.width(), 2);
    assert_eq!(reader.height(), 2);
    assert_eq!(reader.next(), Some(vec![1, 2, 3, 4]));
    assert_eq!(reader.next(), Some(vec![5, 6, 7, 8]));
    assert_eq!(reader.next(), None);
}

#[test]
fn images_reader_rejects_bad_signature() {
    let mut data = images_container(1, 1, &[&[0]]);
    data[3] = 9;
    assert!(matches!(
        ImagesReader::create(data),
        Err(DatasetFormatError::BadSignature)
    ));
}

#[test]
fn images_reader_rejects_missing_pixels() {
    let mut data = images_container(3, 3, &[&[0; 9]]);
    data.pop();
    assert!(matches!(
        ImagesReader::create(data),
        Err(DatasetFormatError::Truncated)
    ));
}

#[test]
fn images_reader_accepts_empty_container() {
    let mut reader = ImagesReader::create(images_container(640, 480, &[])).unwrap();
    assert_eq!(reader.len(), 0);
    assert_eq!(reader.width(), 640);
    assert_eq!(reader.height(), 480);
    assert_eq!(reader.next(), None);
}

#[test]
fn digiter_pairs_labels_with_images() {
    let labels = labels_container(&[3, 1]);
    let images = images_container(2, 1, &[&[10, 20], &[30, 40]]);
    let mut digiter = Digiter::create(labels, images).unwrap();
    assert_eq!(digiter.width(), 2);
    assert_eq!(digiter.height(), 1);
    assert_eq!(digiter.next(), Some((3, vec![10, 20])));
    assert_eq!(digiter.next(), Some((1, vec![30, 40])));
    assert_eq!(digiter.next(), None);
}

#[test]
fn digiter_rejects_count_mismatch() {
    let labels = labels_container(&[3, 1, 4]);
    let images = images_container(2, 1, &[&[10, 20], &[30, 40]]);
    assert!(matches!(
        Digiter::create(labels, images),
        Err(DatasetFormatError::CountMismatch)
    ));
}

#[test]
fn digiter_reports_labels_fault_first() {
    let labels = vec![0, 0, 8, 1, 0];
    let mut images = images_container(2, 1, &[&[10, 20]]);
    images[0] = 1;
    assert!(matches!(
        Digiter::create(labels, images),
        Err(DatasetFormatError::Truncated)
    ));
}
