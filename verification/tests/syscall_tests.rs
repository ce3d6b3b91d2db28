use firework::syscall::{AccessSize, KernelMessage, Message, SystemCall, SystemCallStatus};

#[test]
fn status_codes_round_trip() {
    let all = [
        SystemCallStatus::Success,
        SystemCallStatus::InvalidRequest,
        SystemCallStatus::MalformedData,
        SystemCallStatus::UnknownRequest,
        SystemCallStatus::NotFound,
        SystemCallStatus::DoNothing,
    ];
    for (i, s) in all.iter().enumerate() {
        assert_eq!(s.code(), i as u64);
        assert_eq!(SystemCallStatus::from_code(s.code()), Some(*s));
    }
    assert_eq!(SystemCallStatus::from_code(6), None);
    assert_eq!(SystemCallStatus::from_code(u64::MAX), None);
}

#[test]
fn status_as_result() {
    assert_eq!(SystemCallStatus::Success.as_result(), Ok(()));
    assert_eq!(SystemCallStatus::NotFound.as_result(), Err(SystemCallStatus::NotFound));
    assert_eq!(SystemCallStatus::check(0), Ok(()));
    assert_eq!(SystemCallStatus::check(2), Err(SystemCallStatus::MalformedData));
}

#[test]
fn system_call_numbers() {
    assert_eq!(SystemCall::KPrint.code(), 0);
    assert_eq!(SystemCall::ReceiveMessage.code(), 1);
    assert_eq!(SystemCall::Ack.code(), 12);
    for raw in 0..13u64 {
        let c = SystemCall::from_code(raw).unwrap();
        assert_eq!(c.code(), raw);
    }
    assert_eq!(SystemCall::from_code(13), None);
}

#[test]
fn access_sizes() {
    assert_eq!(AccessSize::Byte.code(), 0);
    assert_eq!(AccessSize::Word.code(), 1);
    assert_eq!(AccessSize::DWord.code(), 2);
    assert_eq!(AccessSize::from_code(1), Some(AccessSize::Word));
    assert_eq!(AccessSize::from_code(3), None);
}

#[test]
fn kernel_message_encoding() {
    assert_eq!(KernelMessage::IRQFired(5).encode(), vec![0u8, 5]);
    assert_eq!(KernelMessage::IRQFired(0xFF).encode(), vec![0u8, 0xFF]);
}

#[test]
fn kernel_message_matches_postcard() {
    for irq in [0u8, 1, 0x7F, 0x80, 0xDF, 0xFF] {
        let mine = KernelMessage::IRQFired(irq).encode();
        let theirs = postcard::to_allocvec(&(0u32, irq)).unwrap();
        assert_eq!(mine, theirs);
    }
}

#[test]
fn kernel_message_decoding() {
    assert_eq!(KernelMessage::decode(&[0, 9]), Some(KernelMessage::IRQFired(9)));
    assert_eq!(KernelMessage::decode(&[0, 9, 1, 2]), Some(KernelMessage::IRQFired(9)));
    assert_eq!(KernelMessage::decode(&[0x80, 0x80, 0, 3]), Some(KernelMessage::IRQFired(3)));
    assert_eq!(KernelMessage::decode(&[1, 9]), None);
    assert_eq!(KernelMessage::decode(&[0]), None);
    assert_eq!(KernelMessage::decode(&[]), None);
    assert_eq!(KernelMessage::decode(&[0x80, 0x80, 0x80, 0x80, 0x80, 0, 1]), None);
    assert_eq!(KernelMessage::decode(&[0x81, 0, 1]), None);
}

#[test]
fn kernel_message_decoding_agrees_with_postcard() {
    let inputs: [&[u8]; 6] = [&[0, 9], &[0x80, 0, 4], &[1, 9], &[0], &[0x80, 0x80, 0x80, 0x80, 0x80, 0, 1], &[0x81, 0, 1]];
    for bytes in inputs {
        let theirs = postcard::from_bytes::<(u32, u8)>(bytes)
            .ok()
            .and_then(|(variant, irq)| if variant == 0 { Some(KernelMessage::IRQFired(irq)) } else { None });
        assert_eq!(KernelMessage::decode(bytes), theirs);
    }
}

#[test]
fn kernel_message_round_trip() {
    for irq in 0..=255u8 {
        let m = KernelMessage::IRQFired(irq);
        assert_eq!(KernelMessage::decode(&m.encode()), Some(m));
    }
}

#[test]
fn message_new_keeps_fields() {
    static DATA: [u8; 3] = [1, 2, 3];
    let m = Message::new(7, 3, &DATA);
    assert_eq!(m.id, 7);
    assert_eq!(m.proc_id, 3);
    assert_eq!(m.data, &[1, 2, 3]);
}

use firework::client::{
    kprint_args, port_in_args, port_out_args, receive_message_args, received_result,
    register_irq_args, send_message_args, single_args, status_result, value_result, ReceivedMessage, SyscallArgs,
    SyscallReturn,
};

fn ret(rax: u64, rdi: u64, rsi: u64, rdx: u64, rcx: u64) -> SyscallReturn {
    SyscallReturn { rax, rdi, rsi, rdx, rcx }
}

#[test]
fn call_arguments() {
    assert_eq!(kprint_args(0x1000, 5), SyscallArgs { rdi: 0, rsi: 0x1000, rdx: 5, rcx: 0, r8: 0 });
    assert_eq!(receive_message_args(), SyscallArgs { rdi: 1, rsi: 0, rdx: 0, rcx: 0, r8: 0 });
    assert_eq!(
        send_message_args(3, 0xC000_2000, 9),
        SyscallArgs { rdi: 2, rsi: 3, rdx: 0, rcx: 0x2000, r8: 9 }
    );
    assert_eq!(register_irq_args(4), SyscallArgs { rdi: 9, rsi: 4, rdx: 1, rcx: 0, r8: 0 });
    assert_eq!(single_args(SystemCall::Ack, 7), SyscallArgs { rdi: 12, rsi: 7, rdx: 0, rcx: 0, r8: 0 });
    assert_eq!(port_in_args(0x60, AccessSize::Byte), SyscallArgs { rdi: 7, rsi: 0x60, rdx: 0, rcx: 0, r8: 0 });
    assert_eq!(
        port_out_args(0xCF8, 0x8000_0000, AccessSize::DWord),
        SyscallArgs { rdi: 8, rsi: 0xCF8, rdx: 0x8000_0000, rcx: 2, r8: 0 }
    );
}

#[test]
fn call_results() {
    assert_eq!(status_result(&ret(0, 0, 0, 0, 0)), Ok(()));
    assert_eq!(status_result(&ret(4, 0, 0, 0, 0)), Err(SystemCallStatus::NotFound));
    assert_eq!(value_result(&ret(0, 42, 0, 0, 0)), Ok(42));
    assert_eq!(value_result(&ret(2, 42, 0, 0, 0)), Err(SystemCallStatus::MalformedData));
    assert_eq!(received_result(&ret(5, 1, 9, 9, 9)), Ok(None));
    assert_eq!(status_result(&ret(5, 0, 0, 0, 0)), Err(SystemCallStatus::DoNothing));
    assert_eq!(
        received_result(&ret(0, 3, 1, 0xC000_0000, 16)),
        Ok(Some(ReceivedMessage { id: 3, proc_id: 1, addr: 0xC000_0000, len: 16 }))
    );
    assert_eq!(received_result(&ret(1, 3, 1, 2, 3)), Err(SystemCallStatus::InvalidRequest));
}
